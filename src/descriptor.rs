use vstd::prelude::*;
use crate::value::{
    DynamicMessage, FieldStorage, MessageModel, ReflectValueBox, RuntimeType, StorageModel,
    ValueModel, lemma_storages_view, storages_view,
};

verus! {

/// The declared type of a field, as written in a schema.
#[derive(PartialEq, Eq, Structural, Clone, Copy, Debug)]
pub enum FieldType {
    Double,
    Float,
    Int32,
    Int64,
    Uint32,
    Uint64,
    Sint32,
    Sint64,
    Fixed32,
    Fixed64,
    Sfixed32,
    Sfixed64,
    Bool,
    String,
    Bytes,
    Enum,
    Message,
}

/// How many values a field holds.
#[derive(PartialEq, Eq, Structural, Clone, Copy, Debug)]
pub enum Cardinality {
    /// Zero or one value.
    Singular,
    /// An ordered sequence of values.
    Repeated,
    /// Key/value entries with distinct keys.
    Keyed,
}

/// A field of a message type.
///
/// `field_type` is the type of the values (of the map values for a keyed
/// field); `key_type` is the type of a keyed field's keys. For enum and
/// message fields `type_index` is the position of the enum or message type in
/// the enclosing `FileDescriptor`.
#[derive(Debug)]
pub struct FieldDescriptor {
    pub name: String,
    pub number: i32,
    pub field_type: FieldType,
    pub cardinality: Cardinality,
    pub type_index: usize,
    pub key_type: FieldType,
}

/// One declared value of an enum type.
#[derive(Debug)]
pub struct EnumValueDescriptor {
    pub name: String,
    pub number: i32,
}

/// An enum type: its full name and declared values, the first being the default.
#[derive(Debug)]
pub struct EnumDescriptor {
    pub full_name: String,
    pub values: Vec<EnumValueDescriptor>,
}

/// A message type: its full name and its fields in declaration order.
#[derive(Debug)]
pub struct MessageDescriptor {
    pub full_name: String,
    pub fields: Vec<FieldDescriptor>,
}

/// A pool of message and enum types that refer to each other by position.
#[derive(Debug)]
pub struct FileDescriptor {
    pub messages: Vec<MessageDescriptor>,
    pub enums: Vec<EnumDescriptor>,
}

/// The kind of value that a field of declared type `t` holds.
pub open spec fn spec_runtime_type_of(t: FieldType) -> RuntimeType {
    match t {
        FieldType::Double => RuntimeType::F64,
        FieldType::Float => RuntimeType::F32,
        FieldType::Int32 | FieldType::Sint32 | FieldType::Sfixed32 => RuntimeType::I32,
        FieldType::Int64 | FieldType::Sint64 | FieldType::Sfixed64 => RuntimeType::I64,
        FieldType::Uint32 | FieldType::Fixed32 => RuntimeType::U32,
        FieldType::Uint64 | FieldType::Fixed64 => RuntimeType::U64,
        FieldType::Bool => RuntimeType::Bool,
        FieldType::String => RuntimeType::String,
        FieldType::Bytes => RuntimeType::Bytes,
        FieldType::Enum => RuntimeType::Enum,
        FieldType::Message => RuntimeType::Message,
    }
}

/// The kind of value that a field of declared type `t` holds.
pub fn runtime_type_of(t: FieldType) -> (r: RuntimeType)
    ensures
        r == spec_runtime_type_of(t),
{
    match t {
        FieldType::Double => RuntimeType::F64,
        FieldType::Float => RuntimeType::F32,
        FieldType::Int32 | FieldType::Sint32 | FieldType::Sfixed32 => RuntimeType::I32,
        FieldType::Int64 | FieldType::Sint64 | FieldType::Sfixed64 => RuntimeType::I64,
        FieldType::Uint32 | FieldType::Fixed32 => RuntimeType::U32,
        FieldType::Uint64 | FieldType::Fixed64 => RuntimeType::U64,
        FieldType::Bool => RuntimeType::Bool,
        FieldType::String => RuntimeType::String,
        FieldType::Bytes => RuntimeType::Bytes,
        FieldType::Enum => RuntimeType::Enum,
        FieldType::Message => RuntimeType::Message,
    }
}

/// Types that a map key may have: integers, booleans and text.
pub open spec fn is_key_type(t: FieldType) -> bool {
    !(t == FieldType::Double || t == FieldType::Float || t == FieldType::Bytes || t == FieldType::Enum
        || t == FieldType::Message)
}

/// Types that have a value independent of any other schema element.
pub open spec fn is_scalar_type(t: FieldType) -> bool {
    t != FieldType::Enum && t != FieldType::Message
}

/// The storage of a field with no value.
pub open spec fn empty_storage(c: Cardinality) -> StorageModel {
    match c {
        Cardinality::Singular => StorageModel::Singular(None),
        Cardinality::Repeated => StorageModel::Repeated(Seq::empty()),
        Cardinality::Keyed => StorageModel::Keyed(Seq::empty()),
    }
}

/// The default of a scalar type: false, zero, or empty.
pub open spec fn scalar_default(t: FieldType) -> ValueModel {
    match spec_runtime_type_of(t) {
        RuntimeType::Bool => ValueModel::Bool(false),
        RuntimeType::I32 => ValueModel::I32(0),
        RuntimeType::I64 => ValueModel::I64(0),
        RuntimeType::U32 => ValueModel::U32(0),
        RuntimeType::U64 => ValueModel::U64(0),
        RuntimeType::F32 => ValueModel::F32(0),
        RuntimeType::F64 => ValueModel::F64(0),
        RuntimeType::String => ValueModel::String(Seq::empty()),
        RuntimeType::Bytes => ValueModel::Bytes(Seq::empty()),
        RuntimeType::Enum => ValueModel::Enum(0),
        RuntimeType::Message => ValueModel::Enum(0),
    }
}

/// Keys of the entries at distinct positions differ.
pub open spec fn keys_distinct(es: Seq<(ValueModel, ValueModel)>) -> bool {
    forall|i: int, j: int| 0 <= i < j < es.len() ==> es[i].0 != es[j].0
}

impl FieldDescriptor {
    /// The type references of this field stay inside `file`.
    pub open spec fn wf_in(self, file: &FileDescriptor) -> bool {
        &&& (self.field_type == FieldType::Enum ==> self.type_index < file.enums@.len())
        &&& (self.field_type == FieldType::Message ==> self.type_index < file.messages@.len())
        &&& (self.cardinality == Cardinality::Keyed ==> is_key_type(self.key_type))
    }
}

impl FileDescriptor {
    /// Every type reference resolves and every enum has at least one value.
    pub open spec fn wf(&self) -> bool {
        &&& forall|i: int, j: int|
            0 <= i < self.messages@.len() && 0 <= j < self.messages@[i].fields@.len()
                ==> #[trigger] self.messages@[i].fields@[j].wf_in(self)
        &&& forall|i: int| 0 <= i < self.enums@.len() ==> #[trigger] self.enums@[i].values@.len() > 0
    }

    /// The `j`th field of message type `d`.
    pub open spec fn field(&self, d: nat, j: int) -> FieldDescriptor {
        self.messages@[d as int].fields@[j]
    }

    /// `v` is a value that a field of type `t` (referring to `type_index`) may hold.
    pub open spec fn value_fits(&self, t: FieldType, type_index: usize, v: ValueModel) -> bool
        decreases v,
    {
        &&& v.runtime_type() == spec_runtime_type_of(t)
        &&& match v {
            ValueModel::Message(mm) => mm.descriptor == type_index as nat && self.message_fits(mm),
            _ => true,
        }
    }

    /// `s` is storage that field `f` may have.
    pub open spec fn storage_fits(&self, f: FieldDescriptor, s: StorageModel) -> bool
        decreases s,
    {
        match s {
            StorageModel::Singular(o) => f.cardinality == Cardinality::Singular && match o {
                Some(v) => self.value_fits(f.field_type, f.type_index, v),
                None => true,
            },
            StorageModel::Repeated(vs) => f.cardinality == Cardinality::Repeated && forall|k: int|
                0 <= k < vs.len() ==> #[trigger] self.value_fits(f.field_type, f.type_index, vs[k]),
            StorageModel::Keyed(es) => f.cardinality == Cardinality::Keyed && keys_distinct(es)
                && forall|k: int|
                0 <= k < es.len() ==> self.value_fits(f.key_type, 0, (#[trigger] es[k]).0) && self.value_fits(
                    f.field_type,
                    f.type_index,
                    es[k].1,
                ),
        }
    }

    /// `m` is an instance of one of this file's message types, every field
    /// holding storage of its cardinality and values of its type.
    pub open spec fn message_fits(&self, m: MessageModel) -> bool
        decreases m,
    {
        &&& m.descriptor < self.messages@.len()
        &&& m.fields.len() == self.messages@[m.descriptor as int].fields@.len()
        &&& forall|j: int|
            0 <= j < m.fields.len() ==> self.storage_fits(
                self.messages@[m.descriptor as int].fields@[j],
                #[trigger] m.fields[j],
            )
    }

    /// A fresh instance of message type `d`: every field empty.
    pub open spec fn new_instance_model(&self, d: nat) -> MessageModel {
        MessageModel {
            descriptor: d,
            fields: Seq::new(
                self.messages@[d as int].fields@.len(),
                |j: int| empty_storage(self.messages@[d as int].fields@[j].cardinality),
            ),
        }
    }

    /// The schema default of field `f`: the first declared value of an enum,
    /// a fresh instance of a message type, else false, zero or empty.
    pub open spec fn default_model(&self, f: FieldDescriptor) -> ValueModel {
        match f.field_type {
            FieldType::Enum => ValueModel::Enum(self.enums@[f.type_index as int].values@[0].number),
            FieldType::Message => ValueModel::Message(self.new_instance_model(f.type_index as nat)),
            _ => scalar_default(f.field_type),
        }
    }
}

/// The sample value that `value_for_type` synthesises for a scalar type.
pub open spec fn sample_value(t: FieldType) -> ValueModel {
    match spec_runtime_type_of(t) {
        RuntimeType::F64 => ValueModel::F64(DOUBLE_SAMPLE_BITS),
        RuntimeType::F32 => ValueModel::F32(FLOAT_SAMPLE_BITS),
        RuntimeType::I32 => ValueModel::I32(13),
        RuntimeType::U32 => ValueModel::U32(14),
        RuntimeType::I64 => ValueModel::I64(13),
        RuntimeType::U64 => ValueModel::U64(14),
        RuntimeType::Bool => ValueModel::Bool(true),
        RuntimeType::String => ValueModel::String(seq!['a', 'a']),
        _ => ValueModel::Bytes(seq![98u8, 98u8]),
    }
}

/// Bit pattern of the double-precision number 11.0.
pub const DOUBLE_SAMPLE_BITS: u64 = 0x4026000000000000;

/// Bit pattern of the single-precision number 12.0.
pub const FLOAT_SAMPLE_BITS: u32 = 0x41400000;

/// A plausible value for a field of scalar type `t`.
pub fn value_for_type(t: FieldType) -> (r: ReflectValueBox)
    requires
        is_scalar_type(t),
    ensures
        r@ == sample_value(t),
{
    match t {
        FieldType::Double => ReflectValueBox::F64(DOUBLE_SAMPLE_BITS),
        FieldType::Float => ReflectValueBox::F32(FLOAT_SAMPLE_BITS),
        FieldType::Int32 | FieldType::Sfixed32 | FieldType::Sint32 => ReflectValueBox::I32(13),
        FieldType::Uint32 | FieldType::Fixed32 => ReflectValueBox::U32(14),
        FieldType::Int64 | FieldType::Sfixed64 | FieldType::Sint64 => ReflectValueBox::I64(13),
        FieldType::Uint64 | FieldType::Fixed64 => ReflectValueBox::U64(14),
        FieldType::Bool => ReflectValueBox::Bool(true),
        FieldType::String => {
            let s = "aa".to_owned();
            proof {
                reveal_strlit("aa");
                assert(s@ =~= seq!['a', 'a']);
            }
            ReflectValueBox::String(s)
        },
        _ => {
            let b: Vec<u8> = vec![98u8, 98u8];
            proof {
                assert(b@ =~= seq![98u8, 98u8]);
            }
            ReflectValueBox::Bytes(b)
        },
    }
}

/// A fresh instance of message type `message` of `file`.
pub fn new_instance(file: &FileDescriptor, message: usize) -> (r: DynamicMessage)
    requires
        file.wf(),
        message < file.messages@.len(),
    ensures
        r@ == file.new_instance_model(message as nat),
        file.message_fits(r@),
{
    let fields = &file.messages[message].fields;
    let mut storage: Vec<FieldStorage> = Vec::new();
    let mut i: usize = 0;
    while i < fields.len()
        invariant
            i <= fields.len(),
            fields == file.messages@[message as int].fields,
            storage@.len() == i,
            forall|j: int| 0 <= j < i ==> (#[trigger] storage@[j]).view() == empty_storage(fields@[j].cardinality),
        decreases fields.len() - i,
    {
        let s = match fields[i].cardinality {
            Cardinality::Singular => FieldStorage::Singular(None),
            Cardinality::Repeated => FieldStorage::Repeated(Vec::new()),
            Cardinality::Keyed => FieldStorage::Keyed(Vec::new()),
        };
        proof {
            crate::value::lemma_values_view(Seq::<ReflectValueBox>::empty());
            crate::value::lemma_entries_view(Seq::<(ReflectValueBox, ReflectValueBox)>::empty());
        }
        storage.push(s);
        i = i + 1;
    }
    let r = DynamicMessage { descriptor: message, fields: storage };
    proof {
        lemma_storages_view(r.fields@);
        assert(r@.fields =~= file.new_instance_model(message as nat).fields);
        file.lemma_new_instance_fits(message as nat);
    }
    r
}

impl FileDescriptor {
    /// A fresh instance is well-typed.
    pub proof fn lemma_new_instance_fits(&self, d: nat)
        requires
            d < self.messages@.len(),
        ensures
            self.message_fits(self.new_instance_model(d)),
    {
        let m = self.new_instance_model(d);
        assert forall|j: int| 0 <= j < m.fields.len() implies self.storage_fits(
            self.messages@[m.descriptor as int].fields@[j],
            #[trigger] m.fields[j],
        ) by {
            assert(m.fields[j] == empty_storage(self.messages@[d as int].fields@[j].cardinality));
        }
    }

    /// The default value of field `f`: the first declared value of an enum,
    /// a fresh instance of a message type, else false, zero or empty.
    pub fn default_value(&self, f: &FieldDescriptor) -> (r: ReflectValueBox)
        requires
            self.wf(),
            f.wf_in(self),
        ensures
            r@ == self.default_model(*f),
            self.value_fits(f.field_type, f.type_index, r@),
    {
        match f.field_type {
            FieldType::Enum => ReflectValueBox::Enum(self.enums[f.type_index].values[0].number),
            FieldType::Message => ReflectValueBox::Message(Box::new(new_instance(self, f.type_index))),
            FieldType::Double => ReflectValueBox::F64(0),
            FieldType::Float => ReflectValueBox::F32(0),
            FieldType::Int32 | FieldType::Sfixed32 | FieldType::Sint32 => ReflectValueBox::I32(0),
            FieldType::Uint32 | FieldType::Fixed32 => ReflectValueBox::U32(0),
            FieldType::Int64 | FieldType::Sfixed64 | FieldType::Sint64 => ReflectValueBox::I64(0),
            FieldType::Uint64 | FieldType::Fixed64 => ReflectValueBox::U64(0),
            FieldType::Bool => ReflectValueBox::Bool(false),
            FieldType::String => ReflectValueBox::String(String::new()),
            FieldType::Bytes => ReflectValueBox::Bytes(Vec::new()),
        }
    }

    /// A plausible value for field `f`: the first declared value of an enum,
    /// a fresh instance of a message type, else `value_for_type`.
    pub fn value_for_field(&self, f: &FieldDescriptor) -> (r: ReflectValueBox)
        requires
            self.wf(),
            f.wf_in(self),
        ensures
            f.field_type == FieldType::Enum ==> r@ == ValueModel::Enum(self.enums@[f.type_index as int].values@[0].number),
            f.field_type == FieldType::Message ==> r@ == ValueModel::Message(self.new_instance_model(f.type_index as nat)),
            is_scalar_type(f.field_type) ==> r@ == sample_value(f.field_type),
            self.value_fits(f.field_type, f.type_index, r@),
    {
        match f.field_type {
            FieldType::Enum => ReflectValueBox::Enum(self.enums[f.type_index].values[0].number),
            FieldType::Message => ReflectValueBox::Message(Box::new(new_instance(self, f.type_index))),
            t => value_for_type(t),
        }
    }

    /// Position of the message type called `full_name`, the first if several are.
    pub fn message_by_name(&self, full_name: &str) -> (r: Option<usize>)
        ensures
            r is None ==> forall|i: int| 0 <= i < self.messages@.len() ==> self.messages@[i].full_name@ != full_name@,
            r matches Some(i) ==> i < self.messages@.len() && self.messages@[i as int].full_name@ == full_name@
                && forall|k: int| 0 <= k < i ==> self.messages@[k].full_name@ != full_name@,
    {
        let key = full_name.to_owned();
        let mut i: usize = 0;
        while i < self.messages.len()
            invariant
                key@ == full_name@,
                i <= self.messages@.len(),
                forall|k: int| 0 <= k < i ==> self.messages@[k].full_name@ != full_name@,
            decreases self.messages.len() - i,
        {
            if self.messages[i].full_name == key {
                return Some(i);
            }
            i = i + 1;
        }
        None
    }

    /// Position of the field called `name` in message type `message`, the first if several are.
    pub fn field_by_name(&self, message: usize, name: &str) -> (r: Option<usize>)
        requires
            message < self.messages@.len(),
        ensures
            r is None ==> forall|j: int|
                0 <= j < self.messages@[message as int].fields@.len() ==> self.field(message as nat, j).name@ != name@,
            r matches Some(j) ==> j < self.messages@[message as int].fields@.len() && self.field(message as nat, j as int).name@
                == name@ && forall|k: int| 0 <= k < j ==> self.field(message as nat, k).name@ != name@,
    {
        let key = name.to_owned();
        let fields = &self.messages[message].fields;
        let mut j: usize = 0;
        while j < fields.len()
            invariant
                key@ == name@,
                fields == self.messages@[message as int].fields,
                j <= fields@.len(),
                forall|k: int| 0 <= k < j ==> self.field(message as nat, k).name@ != name@,
            decreases fields.len() - j,
        {
            if fields[j].name == key {
                return Some(j);
            }
            j = j + 1;
        }
        None
    }
}

impl FieldDescriptor {
    /// Whether the type references of this field stay inside `file`.
    pub fn is_valid_in(&self, file: &FileDescriptor) -> (r: bool)
        ensures
            r == self.wf_in(file),
    {
        let enum_ok = self.field_type != FieldType::Enum || self.type_index < file.enums.len();
        let message_ok = self.field_type != FieldType::Message || self.type_index < file.messages.len();
        let k = self.key_type;
        let key_ok = self.cardinality != Cardinality::Keyed || !(k == FieldType::Double || k == FieldType::Float
            || k == FieldType::Bytes || k == FieldType::Enum || k == FieldType::Message);
        enum_ok && message_ok && key_ok
    }
}

impl FileDescriptor {
    /// Whether every type reference resolves and every enum has a value.
    pub fn is_valid(&self) -> (r: bool)
        ensures
            r == self.wf(),
    {
        let mut e: usize = 0;
        while e < self.enums.len()
            invariant
                e <= self.enums@.len(),
                forall|i: int| 0 <= i < e ==> #[trigger] self.enums@[i].values@.len() > 0,
            decreases self.enums.len() - e,
        {
            if self.enums[e].values.len() == 0 {
                return false;
            }
            e = e + 1;
        }
        let mut i: usize = 0;
        while i < self.messages.len()
            invariant
                i <= self.messages@.len(),
                forall|a: int| 0 <= a < self.enums@.len() ==> #[trigger] self.enums@[a].values@.len() > 0,
                forall|a: int, b: int|
                    0 <= a < i && 0 <= b < self.messages@[a].fields@.len() ==> #[trigger] self.messages@[a].fields@[b].wf_in(self),
            decreases self.messages.len() - i,
        {
            let fields = &self.messages[i].fields;
            let mut j: usize = 0;
            while j < fields.len()
                invariant
                    i < self.messages@.len(),
                    fields == self.messages@[i as int].fields,
                    j <= fields@.len(),
                    forall|a: int, b: int|
                        0 <= a < i && 0 <= b < self.messages@[a].fields@.len() ==> #[trigger] self.messages@[a].fields@[b].wf_in(self),
                    forall|b: int| 0 <= b < j ==> #[trigger] fields@[b].wf_in(self),
                decreases fields.len() - j,
            {
                if !fields[j].is_valid_in(self) {
                    return false;
                }
                j = j + 1;
            }
            i = i + 1;
        }
        true
    }
}

} // verus!
