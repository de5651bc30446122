use pb_reflect::{
    new_instance, runtime_type_of, value_for_type, Cardinality, EnumDescriptor, EnumValueDescriptor,
    FieldDescriptor, FieldType, FileDescriptor, MessageDescriptor, ReflectValueBox, RuntimeType,
};

fn field(name: &str, t: FieldType, c: Cardinality, type_index: usize) -> FieldDescriptor {
    FieldDescriptor {
        name: name.to_string(),
        number: 1,
        field_type: t,
        cardinality: c,
        type_index,
        key_type: FieldType::String,
    }
}

/// Message 0: outer { inner: message 1, tags: repeated string, counts: map<string, int32>,
/// color: enum 0, label: string }; message 1: inner { n: int32 }.
fn file() -> FileDescriptor {
    FileDescriptor {
        messages: vec![
            MessageDescriptor {
                full_name: "pkg.Outer".to_string(),
                fields: vec![
                    field("inner", FieldType::Message, Cardinality::Singular, 1),
                    field("tags", FieldType::String, Cardinality::Repeated, 0),
                    field("counts", FieldType::Int32, Cardinality::Keyed, 0),
                    field("color", FieldType::Enum, Cardinality::Singular, 0),
                    field("label", FieldType::String, Cardinality::Singular, 0),
                ],
            },
            MessageDescriptor {
                full_name: "pkg.Inner".to_string(),
                fields: vec![field("n", FieldType::Sint32, Cardinality::Singular, 0)],
            },
        ],
        enums: vec![EnumDescriptor {
            full_name: "pkg.Color".to_string(),
            values: vec![
                EnumValueDescriptor { name: "RED".to_string(), number: 3 },
                EnumValueDescriptor { name: "BLUE".to_string(), number: 4 },
            ],
        }],
    }
}

fn text(s: &str) -> ReflectValueBox {
    ReflectValueBox::String(s.to_string())
}

#[test]
fn fresh_instance_has_nothing_and_reads_defaults() {
    let f = file();
    let m = new_instance(&f, 0);
    for j in 0..5 {
        assert!(!f.has_field(&m, j));
        assert_eq!(0, f.len_field(&m, j));
    }
    assert_eq!(Some(3), f.get_singular_field_or_default(&m, 3).as_enum());
    assert_eq!(Some(""), f.get_singular_field_or_default(&m, 4).as_str());
    let inner = f.get_singular_field_or_default(&m, 0);
    let inner = inner.as_message().unwrap();
    assert_eq!(1, inner.descriptor);
    assert!(!f.has_field(inner, 0));
    assert!(!f.has_field(&m, 0));
    assert!(!f.has_field(&m, 3));
}

#[test]
fn set_then_get_reads_back_every_scalar_kind() {
    let kinds = [
        FieldType::Double,
        FieldType::Float,
        FieldType::Int32,
        FieldType::Int64,
        FieldType::Uint32,
        FieldType::Uint64,
        FieldType::Sint32,
        FieldType::Sint64,
        FieldType::Fixed32,
        FieldType::Fixed64,
        FieldType::Sfixed32,
        FieldType::Sfixed64,
        FieldType::Bool,
        FieldType::String,
        FieldType::Bytes,
    ];
    let fields: Vec<FieldDescriptor> = kinds.iter().map(|t| field("f", *t, Cardinality::Singular, 0)).collect();
    let f = FileDescriptor {
        messages: vec![MessageDescriptor { full_name: "pkg.All".to_string(), fields }],
        enums: vec![],
    };
    assert!(f.is_valid());
    let mut m = new_instance(&f, 0);
    for (j, t) in kinds.iter().enumerate() {
        let v = value_for_type(*t);
        assert_eq!(runtime_type_of(*t), v.runtime_type());
        f.set_singular_field(&mut m, j, v.clone());
        assert!(f.has_field(&m, j));
        assert_eq!(v, f.get_singular_field_or_default(&m, j));
    }
}

#[test]
fn set_replaces_previous_value() {
    let f = file();
    let mut m = new_instance(&f, 0);
    f.set_singular_field(&mut m, 4, text("a"));
    f.set_singular_field(&mut m, 4, text("bc"));
    assert_eq!(text("bc"), f.get_singular_field_or_default(&m, 4));
    assert_eq!(1, f.len_field(&m, 4));
}

#[test]
fn pushes_keep_order_both_ways() {
    let f = file();
    let mut m = new_instance(&f, 0);
    let expected = vec![text("x"), text("y"), text("z")];
    {
        let mut view = f.mut_repeated(&mut m, 1);
        for v in &expected {
            view.push(v.clone());
        }
        assert_eq!(3, view.len());
    }
    assert_eq!(3, f.len_field(&m, 1));
    assert!(f.has_field(&m, 1));
    let view = f.get_repeated(&m, 1);
    assert!(view.eq_values(&expected));
    assert!(pb_reflect::values_eq(&expected, &vec![text("x"), text("y"), text("z")]));
    assert!(!view.eq_values(&vec![text("y"), text("x"), text("z")]));
    assert!(!view.eq_values(&vec![text("x"), text("y")]));
    assert_eq!(&text("y"), view.get(1));
    assert_eq!("[\"x\", \"y\", \"z\"]", view.debug_string());
}

#[test]
fn fresh_map_is_empty() {
    let f = file();
    let mut m = new_instance(&f, 0);
    assert!(f.get_map(&m, 2).is_empty());
    assert_eq!(0, f.get_map(&m, 2).len());
    assert!(f.mut_map(&mut m, 2).is_empty());
    assert_eq!(0, f.mut_map(&mut m, 2).len());
}

#[test]
fn map_insert_get_and_replace() {
    let f = file();
    let mut m = new_instance(&f, 0);
    {
        let mut map = f.mut_map(&mut m, 2);
        assert_eq!(None, map.insert(text("a"), ReflectValueBox::I32(1)));
        assert_eq!(None, map.insert(text("b"), ReflectValueBox::I32(2)));
        assert_eq!(Some(ReflectValueBox::I32(1)), map.insert(text("a"), ReflectValueBox::I32(5)));
        assert_eq!(2, map.len());
        assert_eq!(Some(&ReflectValueBox::I32(5)), map.get(&text("a")));
    }
    assert!(f.has_field(&m, 2));
    assert_eq!(2, f.len_field(&m, 2));
    let view = f.get_map(&m, 2);
    assert_eq!(Some(&ReflectValueBox::I32(2)), view.get(&text("b")));
    assert_eq!(None, view.get(&text("c")));
    assert_eq!(None, view.get(&ReflectValueBox::I32(2)));
}

#[test]
fn nested_change_is_seen_through_the_parent() {
    let f = file();
    let mut m = new_instance(&f, 0);
    {
        let inner = f.mut_message(&mut m, 0);
        f.set_singular_field(inner, 0, ReflectValueBox::I32(42));
    }
    assert!(f.has_field(&m, 0));
    let inner = f.get_message(&m, 0);
    assert_eq!("pkg.Inner", f.messages[inner.descriptor].full_name);
    assert_eq!(Some(42), f.get_singular_field_or_default(&inner, 0).as_i32());
    {
        let inner = f.mut_message(&mut m, 0);
        f.set_singular_field(inner, 0, ReflectValueBox::I32(-7));
    }
    assert_eq!(Some(-7), f.get_singular_field_or_default(&f.get_message(&m, 0), 0).as_i32());
}

#[test]
fn value_for_type_gives_fixed_samples() {
    assert_eq!(ReflectValueBox::F64(11.0f64.to_bits()), value_for_type(FieldType::Double));
    assert_eq!(ReflectValueBox::F32(12.0f32.to_bits()), value_for_type(FieldType::Float));
    assert_eq!(ReflectValueBox::I32(13), value_for_type(FieldType::Sint32));
    assert_eq!(ReflectValueBox::U32(14), value_for_type(FieldType::Fixed32));
    assert_eq!(ReflectValueBox::I64(13), value_for_type(FieldType::Sfixed64));
    assert_eq!(ReflectValueBox::U64(14), value_for_type(FieldType::Uint64));
    assert_eq!(ReflectValueBox::Bool(true), value_for_type(FieldType::Bool));
    assert_eq!(text("aa"), value_for_type(FieldType::String));
    assert_eq!(ReflectValueBox::Bytes(b"bb".to_vec()), value_for_type(FieldType::Bytes));
}

#[test]
fn value_for_field_uses_schema() {
    let f = file();
    let color = &f.messages[0].fields[3];
    assert_eq!(ReflectValueBox::Enum(3), f.value_for_field(color));
    let inner = f.value_for_field(&f.messages[0].fields[0]);
    assert_eq!(Some(1), inner.as_message().map(|m| m.descriptor));
    assert_eq!(RuntimeType::Message, inner.runtime_type());
}

#[test]
fn mismatched_kinds_are_unequal() {
    assert_ne!(ReflectValueBox::I32(1), ReflectValueBox::I64(1));
    assert_ne!(ReflectValueBox::U32(1), ReflectValueBox::Enum(1));
    assert_eq!(ReflectValueBox::Bytes(vec![1, 2]), ReflectValueBox::Bytes(vec![1, 2]));
    assert_ne!(ReflectValueBox::Bytes(vec![1, 2]), ReflectValueBox::Bytes(vec![1]));
    assert_eq!(None, ReflectValueBox::I32(1).as_i64());
    assert_eq!(None, text("a").as_bytes());
}

#[test]
fn lookups_by_name() {
    let f = file();
    assert_eq!(Some(1), f.message_by_name("pkg.Inner"));
    assert_eq!(None, f.message_by_name("pkg.Missing"));
    assert_eq!(Some(2), f.field_by_name(0, "counts"));
    assert_eq!(None, f.field_by_name(0, "count"));
}

#[test]
fn validity_check_rejects_dangling_references() {
    let mut f = file();
    assert!(f.is_valid());
    f.messages[0].fields[0].type_index = 9;
    assert!(!f.is_valid());
    let mut g = file();
    g.enums[0].values.clear();
    assert!(!g.is_valid());
    let mut h = file();
    h.messages[0].fields[2].key_type = FieldType::Double;
    assert!(!h.is_valid());
}

#[test]
fn debug_text_of_each_kind() {
    let f = FileDescriptor {
        messages: vec![
            MessageDescriptor {
                full_name: "pkg.R".to_string(),
                fields: vec![
                    field("a", FieldType::Int64, Cardinality::Repeated, 0),
                    field("b", FieldType::Bytes, Cardinality::Repeated, 0),
                    field("c", FieldType::Bool, Cardinality::Repeated, 0),
                    field("d", FieldType::Float, Cardinality::Repeated, 0),
                ],
            },
        ],
        enums: vec![],
    };
    let mut m = new_instance(&f, 0);
    {
        let mut v = f.mut_repeated(&mut m, 0);
        v.push(ReflectValueBox::I64(i64::MIN));
        v.push(ReflectValueBox::I64(0));
        v.push(ReflectValueBox::I64(907));
    }
    {
        let mut v = f.mut_repeated(&mut m, 1);
        v.push(ReflectValueBox::Bytes(vec![98, 0, 255]));
        v.push(ReflectValueBox::Bytes(vec![]));
    }
    {
        let mut v = f.mut_repeated(&mut m, 2);
        v.push(ReflectValueBox::Bool(false));
    }
    {
        let mut v = f.mut_repeated(&mut m, 3);
        v.push(ReflectValueBox::F32(1.0f32.to_bits()));
    }
    assert_eq!("[-9223372036854775808, 0, 907]", f.get_repeated(&m, 0).debug_string());
    assert_eq!("[[98, 0, 255], []]", f.get_repeated(&m, 1).debug_string());
    assert_eq!("[false]", f.get_repeated(&m, 2).debug_string());
    assert_eq!("[bits:1065353216]", f.get_repeated(&m, 3).debug_string());
    assert_eq!("[]", f.get_repeated(&new_instance(&f, 0), 0).debug_string());
}
