use vstd::prelude::*;

verus! {

/// The kind of a single value, independent of its wire encoding.
#[derive(PartialEq, Eq, Structural, Clone, Copy, Debug)]
pub enum RuntimeType {
    Bool,
    I32,
    I64,
    U32,
    U64,
    F32,
    F64,
    String,
    Bytes,
    Enum,
    Message,
}

/// One field value of any supported kind.
///
/// Floating-point values are carried as their IEEE-754 bit patterns, so
/// equality on them is bitwise. An enum value is its number within the
/// enum type that the field declares.
#[derive(Debug)]
pub enum ReflectValueBox {
    Bool(bool),
    I32(i32),
    I64(i64),
    U32(u32),
    U64(u64),
    F32(u32),
    F64(u64),
    String(String),
    Bytes(Vec<u8>),
    Enum(i32),
    Message(Box<DynamicMessage>),
}

/// The storage slot of one field inside a message, shaped by its cardinality.
#[derive(Debug)]
pub enum FieldStorage {
    /// Zero or one value; `None` means the field is absent.
    Singular(Option<ReflectValueBox>),
    /// An ordered sequence of values.
    Repeated(Vec<ReflectValueBox>),
    /// Key/value entries with distinct keys, in insertion order.
    Keyed(Vec<(ReflectValueBox, ReflectValueBox)>),
}

/// A message instance: the index of its message type in a descriptor pool,
/// and one storage slot per field of that type, in declaration order.
#[derive(Debug)]
pub struct DynamicMessage {
    pub descriptor: usize,
    pub fields: Vec<FieldStorage>,
}

/// Mathematical model of a value.
pub ghost enum ValueModel {
    Bool(bool),
    I32(i32),
    I64(i64),
    U32(u32),
    U64(u64),
    F32(u32),
    F64(u64),
    String(Seq<char>),
    Bytes(Seq<u8>),
    Enum(i32),
    Message(MessageModel),
}

/// Mathematical model of a field's storage slot.
pub ghost enum StorageModel {
    Singular(Option<ValueModel>),
    Repeated(Seq<ValueModel>),
    Keyed(Seq<(ValueModel, ValueModel)>),
}

/// Mathematical model of a message instance.
pub ghost struct MessageModel {
    pub descriptor: nat,
    pub fields: Seq<StorageModel>,
}

impl ValueModel {
    pub open spec fn runtime_type(self) -> RuntimeType {
        match self {
            ValueModel::Bool(_) => RuntimeType::Bool,
            ValueModel::I32(_) => RuntimeType::I32,
            ValueModel::I64(_) => RuntimeType::I64,
            ValueModel::U32(_) => RuntimeType::U32,
            ValueModel::U64(_) => RuntimeType::U64,
            ValueModel::F32(_) => RuntimeType::F32,
            ValueModel::F64(_) => RuntimeType::F64,
            ValueModel::String(_) => RuntimeType::String,
            ValueModel::Bytes(_) => RuntimeType::Bytes,
            ValueModel::Enum(_) => RuntimeType::Enum,
            ValueModel::Message(_) => RuntimeType::Message,
        }
    }
}

pub open spec fn values_view(s: Seq<ReflectValueBox>) -> Seq<ValueModel>
    decreases s,
{
    if s.len() == 0 {
        Seq::empty()
    } else {
        values_view(s.subrange(0, s.len() - 1)).push(s[s.len() - 1].view())
    }
}

pub open spec fn entries_view(s: Seq<(ReflectValueBox, ReflectValueBox)>) -> Seq<(ValueModel, ValueModel)>
    decreases s,
{
    if s.len() == 0 {
        Seq::empty()
    } else {
        entries_view(s.subrange(0, s.len() - 1)).push((s[s.len() - 1].0.view(), s[s.len() - 1].1.view()))
    }
}

pub open spec fn storages_view(s: Seq<FieldStorage>) -> Seq<StorageModel>
    decreases s,
{
    if s.len() == 0 {
        Seq::empty()
    } else {
        storages_view(s.subrange(0, s.len() - 1)).push(s[s.len() - 1].view())
    }
}

impl ReflectValueBox {
    pub open spec fn view(self) -> ValueModel
        decreases self,
    {
        match self {
            ReflectValueBox::Bool(b) => ValueModel::Bool(b),
            ReflectValueBox::I32(x) => ValueModel::I32(x),
            ReflectValueBox::I64(x) => ValueModel::I64(x),
            ReflectValueBox::U32(x) => ValueModel::U32(x),
            ReflectValueBox::U64(x) => ValueModel::U64(x),
            ReflectValueBox::F32(x) => ValueModel::F32(x),
            ReflectValueBox::F64(x) => ValueModel::F64(x),
            ReflectValueBox::String(s) => ValueModel::String(s@),
            ReflectValueBox::Bytes(b) => ValueModel::Bytes(b@),
            ReflectValueBox::Enum(x) => ValueModel::Enum(x),
            ReflectValueBox::Message(m) => ValueModel::Message((*m).view()),
        }
    }
}

impl FieldStorage {
    pub open spec fn view(self) -> StorageModel
        decreases self,
    {
        match self {
            FieldStorage::Singular(None) => StorageModel::Singular(None),
            FieldStorage::Singular(Some(v)) => StorageModel::Singular(Some(v.view())),
            FieldStorage::Repeated(vs) => StorageModel::Repeated(values_view(vs@)),
            FieldStorage::Keyed(es) => StorageModel::Keyed(entries_view(es@)),
        }
    }
}

impl DynamicMessage {
    pub open spec fn view(self) -> MessageModel
        decreases self,
    {
        MessageModel { descriptor: self.descriptor as nat, fields: storages_view(self.fields@) }
    }
}

pub proof fn lemma_values_view(s: Seq<ReflectValueBox>)
    ensures
        values_view(s).len() == s.len(),
        forall|i: int| 0 <= i < s.len() ==> #[trigger] values_view(s)[i] == s[i].view(),
    decreases s.len(),
{
    if s.len() > 0 {
        lemma_values_view(s.subrange(0, s.len() - 1));
    }
}

pub proof fn lemma_entries_view(s: Seq<(ReflectValueBox, ReflectValueBox)>)
    ensures
        entries_view(s).len() == s.len(),
        forall|i: int| 0 <= i < s.len() ==> #[trigger] entries_view(s)[i] == (s[i].0.view(), s[i].1.view()),
    decreases s.len(),
{
    if s.len() > 0 {
        lemma_entries_view(s.subrange(0, s.len() - 1));
    }
}

pub proof fn lemma_storages_view(s: Seq<FieldStorage>)
    ensures
        storages_view(s).len() == s.len(),
        forall|i: int| 0 <= i < s.len() ==> #[trigger] storages_view(s)[i] == s[i].view(),
    decreases s.len(),
{
    if s.len() > 0 {
        lemma_storages_view(s.subrange(0, s.len() - 1));
    }
}

impl ReflectValueBox {
    /// The kind tag of this value.
    pub fn runtime_type(&self) -> (r: RuntimeType)
        ensures
            r == self@.runtime_type(),
    {
        match self {
            ReflectValueBox::Bool(_) => RuntimeType::Bool,
            ReflectValueBox::I32(_) => RuntimeType::I32,
            ReflectValueBox::I64(_) => RuntimeType::I64,
            ReflectValueBox::U32(_) => RuntimeType::U32,
            ReflectValueBox::U64(_) => RuntimeType::U64,
            ReflectValueBox::F32(_) => RuntimeType::F32,
            ReflectValueBox::F64(_) => RuntimeType::F64,
            ReflectValueBox::String(_) => RuntimeType::String,
            ReflectValueBox::Bytes(_) => RuntimeType::Bytes,
            ReflectValueBox::Enum(_) => RuntimeType::Enum,
            ReflectValueBox::Message(_) => RuntimeType::Message,
        }
    }

    /// A deep copy: a message value is copied with all its fields.
    pub fn deep_clone(&self) -> (r: ReflectValueBox)
        ensures
            r@ == self@,
        decreases self,
    {
        match self {
            ReflectValueBox::Bool(b) => ReflectValueBox::Bool(*b),
            ReflectValueBox::I32(x) => ReflectValueBox::I32(*x),
            ReflectValueBox::I64(x) => ReflectValueBox::I64(*x),
            ReflectValueBox::U32(x) => ReflectValueBox::U32(*x),
            ReflectValueBox::U64(x) => ReflectValueBox::U64(*x),
            ReflectValueBox::F32(x) => ReflectValueBox::F32(*x),
            ReflectValueBox::F64(x) => ReflectValueBox::F64(*x),
            ReflectValueBox::String(s) => ReflectValueBox::String(s.clone()),
            ReflectValueBox::Bytes(b) => ReflectValueBox::Bytes(copy_bytes(b)),
            ReflectValueBox::Enum(x) => ReflectValueBox::Enum(*x),
            ReflectValueBox::Message(m) => ReflectValueBox::Message(Box::new(m.deep_clone())),
        }
    }

    /// Structural equality: values of different kinds are never equal.
    pub fn value_eq(&self, other: &ReflectValueBox) -> (r: bool)
        ensures
            r == (self@ == other@),
        decreases self,
    {
        if self.runtime_type() != other.runtime_type() {
            return false;
        }
        match (self, other) {
            (ReflectValueBox::Bool(a), ReflectValueBox::Bool(b)) => *a == *b,
            (ReflectValueBox::I32(a), ReflectValueBox::I32(b)) => *a == *b,
            (ReflectValueBox::I64(a), ReflectValueBox::I64(b)) => *a == *b,
            (ReflectValueBox::U32(a), ReflectValueBox::U32(b)) => *a == *b,
            (ReflectValueBox::U64(a), ReflectValueBox::U64(b)) => *a == *b,
            (ReflectValueBox::F32(a), ReflectValueBox::F32(b)) => *a == *b,
            (ReflectValueBox::F64(a), ReflectValueBox::F64(b)) => *a == *b,
            (ReflectValueBox::String(a), ReflectValueBox::String(b)) => *a == *b,
            (ReflectValueBox::Bytes(a), ReflectValueBox::Bytes(b)) => bytes_eq(a, b),
            (ReflectValueBox::Enum(a), ReflectValueBox::Enum(b)) => *a == *b,
            (ReflectValueBox::Message(a), ReflectValueBox::Message(b)) => a.message_eq(b),
            _ => false,
        }
    }
}

fn copy_bytes(b: &Vec<u8>) -> (r: Vec<u8>)
    ensures
        r@ == b@,
{
    let mut r: Vec<u8> = Vec::new();
    let mut i: usize = 0;
    while i < b.len()
        invariant
            i <= b.len(),
            r@ == b@.subrange(0, i as int),
        decreases b.len() - i,
    {
        r.push(b[i]);
        i = i + 1;
        proof {
            assert(r@ =~= b@.subrange(0, i as int));
        }
    }
    proof {
        assert(b@.subrange(0, b@.len() as int) =~= b@);
    }
    r
}

fn bytes_eq(a: &Vec<u8>, b: &Vec<u8>) -> (r: bool)
    ensures
        r == (a@ == b@),
{
    if a.len() != b.len() {
        return false;
    }
    let mut i: usize = 0;
    while i < a.len()
        invariant
            a.len() == b.len(),
            i <= a.len(),
            forall|j: int| 0 <= j < i ==> a@[j] == b@[j],
        decreases a.len() - i,
    {
        if a[i] != b[i] {
            return false;
        }
        i = i + 1;
    }
    proof {
        assert(a@ =~= b@);
    }
    true
}

/// Element-wise equality of two sequences of values.
pub fn values_eq(a: &Vec<ReflectValueBox>, b: &Vec<ReflectValueBox>) -> (r: bool)
    ensures
        r == (values_view(a@) == values_view(b@)),
    decreases a,
{
    proof {
        lemma_values_view(a@);
        lemma_values_view(b@);
    }
    if a.len() != b.len() {
        return false;
    }
    let mut i: usize = 0;
    while i < a.len()
        invariant
            a.len() == b.len(),
            i <= a.len(),
            values_view(a@).len() == a@.len(),
            values_view(b@).len() == b@.len(),
            forall|j: int| 0 <= j < a@.len() ==> #[trigger] values_view(a@)[j] == a@[j].view(),
            forall|j: int| 0 <= j < b@.len() ==> #[trigger] values_view(b@)[j] == b@[j].view(),
            forall|j: int| 0 <= j < i ==> a@[j].view() == b@[j].view(),
        decreases a.len() - i,
    {
        proof {
            assert(decreases_to!(a => a@[i as int]));
        }
        if !a[i].value_eq(&b[i]) {
            proof {
                assert(values_view(a@)[i as int] != values_view(b@)[i as int]);
            }
            return false;
        }
        i = i + 1;
    }
    proof {
        assert(values_view(a@) =~= values_view(b@));
    }
    true
}

fn entries_eq(a: &Vec<(ReflectValueBox, ReflectValueBox)>, b: &Vec<(ReflectValueBox, ReflectValueBox)>) -> (r: bool)
    ensures
        r == (entries_view(a@) == entries_view(b@)),
    decreases a,
{
    proof {
        lemma_entries_view(a@);
        lemma_entries_view(b@);
    }
    if a.len() != b.len() {
        return false;
    }
    let mut i: usize = 0;
    while i < a.len()
        invariant
            a.len() == b.len(),
            i <= a.len(),
            entries_view(a@).len() == a@.len(),
            entries_view(b@).len() == b@.len(),
            forall|j: int| 0 <= j < a@.len() ==> #[trigger] entries_view(a@)[j] == (a@[j].0.view(), a@[j].1.view()),
            forall|j: int| 0 <= j < b@.len() ==> #[trigger] entries_view(b@)[j] == (b@[j].0.view(), b@[j].1.view()),
            forall|j: int| 0 <= j < i ==> entries_view(a@)[j] == entries_view(b@)[j],
        decreases a.len() - i,
    {
        proof {
            assert(decreases_to!(a => a@[i as int]));
            assert(entries_view(a@)[i as int] == (a@[i as int].0.view(), a@[i as int].1.view()));
            assert(entries_view(b@)[i as int] == (b@[i as int].0.view(), b@[i as int].1.view()));
        }
        let ka = &a[i].0;
        let va = &a[i].1;
        let kb = &b[i].0;
        let vb = &b[i].1;
        if !ka.value_eq(kb) || !va.value_eq(vb) {
            return false;
        }
        i = i + 1;
    }
    proof {
        assert(entries_view(a@) =~= entries_view(b@));
    }
    true
}

/// A deep copy of a sequence of values.
pub fn clone_values(a: &Vec<ReflectValueBox>) -> (r: Vec<ReflectValueBox>)
    ensures
        values_view(r@) == values_view(a@),
    decreases a,
{
    let mut r: Vec<ReflectValueBox> = Vec::new();
    let mut i: usize = 0;
    proof {
        lemma_values_view(a@);
    }
    while i < a.len()
        invariant
            i <= a.len(),
            r@.len() == i,
            values_view(a@).len() == a@.len(),
            forall|j: int| 0 <= j < a@.len() ==> #[trigger] values_view(a@)[j] == a@[j].view(),
            forall|j: int| 0 <= j < i ==> r@[j].view() == a@[j].view(),
        decreases a.len() - i,
    {
        proof {
            assert(decreases_to!(a => a@[i as int]));
        }
        r.push(a[i].deep_clone());
        i = i + 1;
    }
    proof {
        lemma_values_view(r@);
        assert(values_view(r@) =~= values_view(a@));
    }
    r
}

fn clone_entries(a: &Vec<(ReflectValueBox, ReflectValueBox)>) -> (r: Vec<(ReflectValueBox, ReflectValueBox)>)
    ensures
        entries_view(r@) == entries_view(a@),
    decreases a,
{
    let mut r: Vec<(ReflectValueBox, ReflectValueBox)> = Vec::new();
    let mut i: usize = 0;
    proof {
        lemma_entries_view(a@);
    }
    while i < a.len()
        invariant
            i <= a.len(),
            r@.len() == i,
            entries_view(a@).len() == a@.len(),
            forall|j: int| 0 <= j < a@.len() ==> #[trigger] entries_view(a@)[j] == (a@[j].0.view(), a@[j].1.view()),
            forall|j: int| 0 <= j < i ==> r@[j].0.view() == a@[j].0.view() && r@[j].1.view() == a@[j].1.view(),
        decreases a.len() - i,
    {
        proof {
            assert(decreases_to!(a => a@[i as int]));
        }
        let k = a[i].0.deep_clone();
        let v = a[i].1.deep_clone();
        r.push((k, v));
        i = i + 1;
    }
    proof {
        lemma_entries_view(r@);
        assert(entries_view(r@) =~= entries_view(a@));
    }
    r
}

impl FieldStorage {
    /// A deep copy.
    pub fn deep_clone(&self) -> (r: FieldStorage)
        ensures
            r@ == self@,
        decreases self,
    {
        match self {
            FieldStorage::Singular(None) => FieldStorage::Singular(None),
            FieldStorage::Singular(Some(v)) => FieldStorage::Singular(Some(v.deep_clone())),
            FieldStorage::Repeated(vs) => FieldStorage::Repeated(clone_values(vs)),
            FieldStorage::Keyed(es) => FieldStorage::Keyed(clone_entries(es)),
        }
    }

    /// Structural equality.
    pub fn storage_eq(&self, other: &FieldStorage) -> (r: bool)
        ensures
            r == (self@ == other@),
        decreases self,
    {
        match (self, other) {
            (FieldStorage::Singular(None), FieldStorage::Singular(None)) => true,
            (FieldStorage::Singular(Some(a)), FieldStorage::Singular(Some(b))) => a.value_eq(b),
            (FieldStorage::Repeated(a), FieldStorage::Repeated(b)) => values_eq(a, b),
            (FieldStorage::Keyed(a), FieldStorage::Keyed(b)) => entries_eq(a, b),
            _ => false,
        }
    }
}

impl DynamicMessage {
    /// A deep copy.
    pub fn deep_clone(&self) -> (r: DynamicMessage)
        ensures
            r@ == self@,
        decreases self,
    {
        let mut fields: Vec<FieldStorage> = Vec::new();
        let mut i: usize = 0;
        proof {
            lemma_storages_view(self.fields@);
        }
        while i < self.fields.len()
            invariant
                i <= self.fields.len(),
                fields@.len() == i,
                storages_view(self.fields@).len() == self.fields@.len(),
                forall|j: int| 0 <= j < self.fields@.len() ==> #[trigger] storages_view(self.fields@)[j] == self.fields@[j].view(),
                forall|j: int| 0 <= j < i ==> fields@[j].view() == self.fields@[j].view(),
            decreases self.fields.len() - i,
        {
            proof {
                assert(decreases_to!(self => self.fields@[i as int]));
            }
            fields.push(self.fields[i].deep_clone());
            i = i + 1;
        }
        proof {
            lemma_storages_view(fields@);
            assert(storages_view(fields@) =~= storages_view(self.fields@));
        }
        DynamicMessage { descriptor: self.descriptor, fields }
    }

    /// Structural equality: same message type and equal field storage.
    pub fn message_eq(&self, other: &DynamicMessage) -> (r: bool)
        ensures
            r == (self@ == other@),
        decreases self,
    {
        proof {
            lemma_storages_view(self.fields@);
            lemma_storages_view(other.fields@);
        }
        if self.descriptor != other.descriptor || self.fields.len() != other.fields.len() {
            return false;
        }
        let mut i: usize = 0;
        while i < self.fields.len()
            invariant
                self.fields.len() == other.fields.len(),
                i <= self.fields.len(),
                storages_view(self.fields@).len() == self.fields@.len(),
                storages_view(other.fields@).len() == other.fields@.len(),
                forall|j: int| 0 <= j < self.fields@.len() ==> #[trigger] storages_view(self.fields@)[j] == self.fields@[j].view(),
                forall|j: int| 0 <= j < other.fields@.len() ==> #[trigger] storages_view(other.fields@)[j] == other.fields@[j].view(),
                forall|j: int| 0 <= j < i ==> self.fields@[j].view() == other.fields@[j].view(),
            decreases self.fields.len() - i,
        {
            proof {
                assert(decreases_to!(self => self.fields@[i as int]));
            }
            if !self.fields[i].storage_eq(&other.fields[i]) {
                proof {
                    assert(storages_view(self.fields@)[i as int] != storages_view(other.fields@)[i as int]);
                }
                return false;
            }
            i = i + 1;
        }
        proof {
            assert(storages_view(self.fields@) =~= storages_view(other.fields@));
        }
        true
    }
}

impl ReflectValueBox {
    /// The boolean held, if this is a boolean.
    pub fn as_bool(&self) -> (r: Option<bool>)
        ensures
            r == (match self@ { ValueModel::Bool(b) => Some(b), _ => None::<bool> }),
    {
        match self {
            ReflectValueBox::Bool(b) => Some(*b),
            _ => None,
        }
    }

    /// The signed 32-bit integer held, if this is one.
    pub fn as_i32(&self) -> (r: Option<i32>)
        ensures
            r == (match self@ { ValueModel::I32(x) => Some(x), _ => None::<i32> }),
    {
        match self {
            ReflectValueBox::I32(x) => Some(*x),
            _ => None,
        }
    }

    /// The signed 64-bit integer held, if this is one.
    pub fn as_i64(&self) -> (r: Option<i64>)
        ensures
            r == (match self@ { ValueModel::I64(x) => Some(x), _ => None::<i64> }),
    {
        match self {
            ReflectValueBox::I64(x) => Some(*x),
            _ => None,
        }
    }

    /// The unsigned 32-bit integer held, if this is one.
    pub fn as_u32(&self) -> (r: Option<u32>)
        ensures
            r == (match self@ { ValueModel::U32(x) => Some(x), _ => None::<u32> }),
    {
        match self {
            ReflectValueBox::U32(x) => Some(*x),
            _ => None,
        }
    }

    /// The unsigned 64-bit integer held, if this is one.
    pub fn as_u64(&self) -> (r: Option<u64>)
        ensures
            r == (match self@ { ValueModel::U64(x) => Some(x), _ => None::<u64> }),
    {
        match self {
            ReflectValueBox::U64(x) => Some(*x),
            _ => None,
        }
    }

    /// The enum value number held, if this is an enum value.
    pub fn as_enum(&self) -> (r: Option<i32>)
        ensures
            r == (match self@ { ValueModel::Enum(x) => Some(x), _ => None::<i32> }),
    {
        match self {
            ReflectValueBox::Enum(x) => Some(*x),
            _ => None,
        }
    }

    /// The text held, if this is text.
    pub fn as_str(&self) -> (r: Option<&str>)
        ensures
            r is Some <==> self@ is String,
            r matches Some(t) ==> self@ == ValueModel::String(t@),
    {
        match self {
            ReflectValueBox::String(t) => Some(t.as_str()),
            _ => None,
        }
    }

    /// The bytes held, if this is a byte sequence.
    pub fn as_bytes(&self) -> (r: Option<&Vec<u8>>)
        ensures
            r is Some <==> self@ is Bytes,
            r matches Some(b) ==> self@ == ValueModel::Bytes(b@),
    {
        match self {
            ReflectValueBox::Bytes(b) => Some(b),
            _ => None,
        }
    }

    /// The message held, if this is a message.
    pub fn as_message(&self) -> (r: Option<&DynamicMessage>)
        ensures
            r is Some <==> self@ is Message,
            r matches Some(m) ==> self@ == ValueModel::Message(m@),
    {
        match self {
            ReflectValueBox::Message(m) => Some(&**m),
            _ => None,
        }
    }
}

impl Clone for ReflectValueBox {
    fn clone(&self) -> (r: Self)
        ensures
            r@ == self@,
    {
        self.deep_clone()
    }
}

impl PartialEq for ReflectValueBox {
    fn eq(&self, other: &ReflectValueBox) -> (r: bool) {
        self.value_eq(other)
    }
}

impl vstd::std_specs::cmp::PartialEqSpecImpl for ReflectValueBox {
    open spec fn obeys_eq_spec() -> bool {
        false
    }

    open spec fn eq_spec(&self, other: &ReflectValueBox) -> bool {
        self@ == other@
    }
}

} // verus!
