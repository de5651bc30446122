use vstd::prelude::*;
use crate::value::{ReflectValueBox, ValueModel, lemma_values_view, values_view};

verus! {

/// Text of a single decimal digit.
pub open spec fn digit_char(d: nat) -> char {
    seq!['0', '1', '2', '3', '4', '5', '6', '7', '8', '9'][d as int]
}

/// Decimal text of a natural number, without leading zeros.
pub open spec fn decimal(n: nat) -> Seq<char>
    decreases n,
{
    if n < 10 {
        seq![digit_char(n)]
    } else {
        decimal(n / 10).push(digit_char(n % 10))
    }
}

/// Decimal text of an integer, with a leading minus sign when negative.
pub open spec fn signed_decimal(n: int) -> Seq<char> {
    if n < 0 {
        seq!['-'] + decimal((-n) as nat)
    } else {
        decimal(n as nat)
    }
}

/// Comma-separated decimal text of bytes, in brackets.
pub open spec fn bytes_text(b: Seq<u8>) -> Seq<char> {
    seq!['['] + join_bytes(b) + seq![']']
}

pub open spec fn join_bytes(b: Seq<u8>) -> Seq<char>
    decreases b.len(),
{
    if b.len() == 0 {
        Seq::empty()
    } else if b.len() == 1 {
        decimal(b[0] as nat)
    } else {
        join_bytes(b.drop_last()) + seq![',', ' '] + decimal(b.last() as nat)
    }
}

/// Text of a floating-point bit pattern: `bits:` and the pattern in decimal.
pub open spec fn bits_text(n: nat) -> Seq<char> {
    seq!['b', 'i', 't', 's', ':'] + decimal(n)
}

/// Debug text of one value: integers in decimal, floating-point numbers as
/// their bit patterns, text in double quotes as it stands, bytes as a list of
/// numbers, an enum value as its number, and a message as its type position
/// (message contents are left to a text-format printer).
pub open spec fn value_text(v: ValueModel) -> Seq<char> {
    match v {
        ValueModel::Bool(b) => if b { seq!['t', 'r', 'u', 'e'] } else { seq!['f', 'a', 'l', 's', 'e'] },
        ValueModel::I32(x) => signed_decimal(x as int),
        ValueModel::I64(x) => signed_decimal(x as int),
        ValueModel::U32(x) => decimal(x as nat),
        ValueModel::U64(x) => decimal(x as nat),
        ValueModel::F32(x) => bits_text(x as nat),
        ValueModel::F64(x) => bits_text(x as nat),
        ValueModel::String(s) => seq!['"'] + s + seq!['"'],
        ValueModel::Bytes(b) => bytes_text(b),
        ValueModel::Enum(x) => signed_decimal(x as int),
        ValueModel::Message(m) => seq!['m', 'e', 's', 's', 'a', 'g', 'e', ' ', '#'] + decimal(m.descriptor),
    }
}

/// Comma-separated texts of values.
pub open spec fn join_values(vs: Seq<ValueModel>) -> Seq<char>
    decreases vs.len(),
{
    if vs.len() == 0 {
        Seq::empty()
    } else if vs.len() == 1 {
        value_text(vs[0])
    } else {
        join_values(vs.drop_last()) + seq![',', ' '] + value_text(vs.last())
    }
}

/// Debug text of a sequence of values: their texts, comma-separated, in brackets.
pub open spec fn list_text(vs: Seq<ValueModel>) -> Seq<char> {
    seq!['['] + join_values(vs) + seq![']']
}

fn push_digit(out: &mut String, d: u64)
    requires
        d < 10,
    ensures
        final(out)@ == old(out)@.push(digit_char(d as nat)),
{
    let t = if d == 0 { "0" } else if d == 1 { "1" } else if d == 2 { "2" } else if d == 3 { "3" } else if d == 4 {
        "4"
    } else if d == 5 { "5" } else if d == 6 { "6" } else if d == 7 { "7" } else if d == 8 { "8" } else { "9" };
    proof {
        reveal_strlit("0");
        reveal_strlit("1");
        reveal_strlit("2");
        reveal_strlit("3");
        reveal_strlit("4");
        reveal_strlit("5");
        reveal_strlit("6");
        reveal_strlit("7");
        reveal_strlit("8");
        reveal_strlit("9");
    }
    out.append(t);
    proof {
        assert(final(out)@ =~= old(out)@.push(digit_char(d as nat)));
    }
}

fn push_decimal(out: &mut String, n: u64)
    ensures
        final(out)@ == old(out)@ + decimal(n as nat),
    decreases n,
{
    if n >= 10 {
        push_decimal(out, n / 10);
    }
    push_digit(out, n % 10);
    proof {
        assert(final(out)@ =~= old(out)@ + decimal(n as nat));
    }
}

fn push_signed(out: &mut String, n: i64)
    ensures
        final(out)@ == old(out)@ + signed_decimal(n as int),
{
    if n < 0 {
        out.append("-");
        proof {
            reveal_strlit("-");
        }
        let mag: u64 = ((-(n + 1)) as u64) + 1;
        push_decimal(out, mag);
        proof {
            assert(mag as int == -(n as int));
            assert(final(out)@ =~= old(out)@ + signed_decimal(n as int));
        }
    } else {
        push_decimal(out, n as u64);
    }
}

fn push_bytes(out: &mut String, b: &Vec<u8>)
    ensures
        final(out)@ == old(out)@ + bytes_text(b@),
{
    out.append("[");
    let mut i: usize = 0;
    proof {
        reveal_strlit("[");
        assert(join_bytes(b@.subrange(0, 0)) =~= Seq::<char>::empty());
        assert(out@ =~= old(out)@ + seq!['['] + join_bytes(b@.subrange(0, 0)));
    }
    while i < b.len()
        invariant
            i <= b@.len(),
            out@ == old(out)@ + seq!['['] + join_bytes(b@.subrange(0, i as int)),
        decreases b.len() - i,
    {
        proof {
            reveal_strlit("[");
            reveal_strlit(", ");
        }
        let ghost before = out@;
        if i > 0 {
            out.append(", ");
        }
        push_decimal(out, b[i] as u64);
        proof {
            let p = b@.subrange(0, i + 1);
            assert(p.drop_last() =~= b@.subrange(0, i as int));
            assert(p.last() == b@[i as int]);
            if i == 0 {
                assert(join_bytes(b@.subrange(0, 0)) =~= Seq::<char>::empty());
            }
        }
        i = i + 1;
        proof {
            assert(out@ =~= old(out)@ + seq!['['] + join_bytes(b@.subrange(0, i as int)));
        }
    }
    out.append("]");
    proof {
        reveal_strlit("]");
        reveal_strlit("[");
        assert(b@.subrange(0, b@.len() as int) =~= b@);
        assert(out@ =~= old(out)@ + bytes_text(b@));
    }
}

fn push_value_text(out: &mut String, v: &ReflectValueBox)
    ensures
        final(out)@ == old(out)@ + value_text(v@),
{
    match v {
        ReflectValueBox::Bool(b) => {
            proof {
                reveal_strlit("true");
                reveal_strlit("false");
            }
            if *b {
                out.append("true");
            } else {
                out.append("false");
            }
        },
        ReflectValueBox::I32(x) => push_signed(out, *x as i64),
        ReflectValueBox::I64(x) => push_signed(out, *x),
        ReflectValueBox::U32(x) => push_decimal(out, *x as u64),
        ReflectValueBox::U64(x) => push_decimal(out, *x),
        ReflectValueBox::F32(x) => {
            out.append("bits:");
            push_decimal(out, *x as u64);
            proof {
                reveal_strlit("bits:");
            }
        },
        ReflectValueBox::F64(x) => {
            out.append("bits:");
            push_decimal(out, *x);
            proof {
                reveal_strlit("bits:");
            }
        },
        ReflectValueBox::String(t) => {
            out.append("\"");
            out.append(t.as_str());
            out.append("\"");
            proof {
                reveal_strlit("\"");
            }
        },
        ReflectValueBox::Bytes(b) => push_bytes(out, b),
        ReflectValueBox::Enum(x) => push_signed(out, *x as i64),
        ReflectValueBox::Message(m) => {
            out.append("message #");
            push_decimal(out, m.descriptor as u64);
            proof {
                reveal_strlit("message #");
            }
        },
    }
    proof {
        assert(final(out)@ =~= old(out)@ + value_text(v@));
    }
}

/// Debug text of a sequence of values, as `list_text` states it.
pub fn values_text(vs: &Vec<ReflectValueBox>) -> (r: String)
    ensures
        r@ == list_text(values_view(vs@)),
{
    proof {
        lemma_values_view(vs@);
    }
    let mut out = String::new();
    out.append("[");
    let mut i: usize = 0;
    proof {
        reveal_strlit("[");
        assert(join_values(values_view(vs@).subrange(0, 0)) =~= Seq::<char>::empty());
        assert(out@ =~= seq!['['] + join_values(values_view(vs@).subrange(0, 0)));
    }
    while i < vs.len()
        invariant
            i <= vs@.len(),
            values_view(vs@).len() == vs@.len(),
            forall|j: int| 0 <= j < vs@.len() ==> #[trigger] values_view(vs@)[j] == vs@[j]@,
            out@ == seq!['['] + join_values(values_view(vs@).subrange(0, i as int)),
        decreases vs.len() - i,
    {
        proof {
            reveal_strlit("[");
            reveal_strlit(", ");
        }
        if i > 0 {
            out.append(", ");
        }
        push_value_text(&mut out, &vs[i]);
        proof {
            let p = values_view(vs@).subrange(0, i + 1);
            assert(p.drop_last() =~= values_view(vs@).subrange(0, i as int));
            assert(p.last() == vs@[i as int]@);
            if i == 0 {
                assert(join_values(values_view(vs@).subrange(0, 0)) =~= Seq::<char>::empty());
            }
        }
        i = i + 1;
        proof {
            assert(out@ =~= seq!['['] + join_values(values_view(vs@).subrange(0, i as int)));
        }
    }
    out.append("]");
    proof {
        reveal_strlit("]");
        reveal_strlit("[");
        assert(values_view(vs@).subrange(0, vs@.len() as int) =~= values_view(vs@));
        assert(out@ =~= list_text(values_view(vs@)));
    }
    out
}

} // verus!
