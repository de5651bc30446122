use vstd::prelude::*;
use vstd::pervasive::unreached;
use crate::render::{list_text, values_text};
use crate::descriptor::{keys_distinct, Cardinality, FieldDescriptor, FieldType, FileDescriptor, new_instance};
use crate::value::{
    DynamicMessage, FieldStorage, MessageModel, ReflectValueBox, StorageModel, ValueModel,
    entries_view, lemma_entries_view, lemma_storages_view, lemma_values_view, storages_view, values_view,
};

verus! {

/// Whether field `j` of `m` holds anything: a value for a singular field, at
/// least one element or entry otherwise.
pub open spec fn spec_has_field(m: MessageModel, j: int) -> bool {
    match m.fields[j] {
        StorageModel::Singular(o) => o is Some,
        StorageModel::Repeated(vs) => vs.len() > 0,
        StorageModel::Keyed(es) => es.len() > 0,
    }
}

/// How many values field `j` of `m` holds.
pub open spec fn spec_len_field(m: MessageModel, j: int) -> nat {
    match m.fields[j] {
        StorageModel::Singular(o) => if o is Some { 1 } else { 0 },
        StorageModel::Repeated(vs) => vs.len(),
        StorageModel::Keyed(es) => es.len(),
    }
}

/// The elements of repeated field `j` of `m`.
pub open spec fn repeated_model(m: MessageModel, j: int) -> Seq<ValueModel> {
    match m.fields[j] {
        StorageModel::Repeated(vs) => vs,
        _ => Seq::empty(),
    }
}

/// The entries of keyed field `j` of `m`.
pub open spec fn keyed_model(m: MessageModel, j: int) -> Seq<(ValueModel, ValueModel)> {
    match m.fields[j] {
        StorageModel::Keyed(es) => es,
        _ => Seq::empty(),
    }
}

/// `m` with the storage of field `j` replaced by `s`.
pub open spec fn with_field(m: MessageModel, j: int, s: StorageModel) -> MessageModel {
    MessageModel { descriptor: m.descriptor, fields: m.fields.update(j, s) }
}

proof fn lemma_storages_view_update(s: Seq<FieldStorage>, j: int, x: FieldStorage)
    requires
        0 <= j < s.len(),
    ensures
        storages_view(s.update(j, x)) == storages_view(s).update(j, x.view()),
{
    lemma_storages_view(s);
    lemma_storages_view(s.update(j, x));
    assert(storages_view(s.update(j, x)) =~= storages_view(s).update(j, x.view()));
}

impl FileDescriptor {
    /// The descriptor of field `j` of the message type of `m`.
    pub open spec fn field_of(&self, m: MessageModel, j: int) -> FieldDescriptor {
        self.field(m.descriptor, j)
    }

    /// `m` is a well-typed instance of this well-formed file and `j` one of its fields.
    pub open spec fn valid_field(&self, m: MessageModel, j: int) -> bool {
        &&& self.wf()
        &&& self.message_fits(m)
        &&& 0 <= j < m.fields.len()
    }

    /// The value of singular field `j` of `m`, or its default when absent.
    pub open spec fn get_or_default_model(&self, m: MessageModel, j: int) -> ValueModel {
        match m.fields[j] {
            StorageModel::Singular(Some(v)) => v,
            _ => self.default_model(self.field_of(m, j)),
        }
    }

    proof fn lemma_fits_with_field(&self, m: MessageModel, j: int, s: StorageModel)
        requires
            self.valid_field(m, j),
            self.storage_fits(self.field_of(m, j), s),
        ensures
            self.message_fits(with_field(m, j, s)),
    {
        let n = with_field(m, j, s);
        assert forall|k: int| 0 <= k < n.fields.len() implies self.storage_fits(
            self.messages@[n.descriptor as int].fields@[k],
            #[trigger] n.fields[k],
        ) by {
            if k != j {
                assert(n.fields[k] == m.fields[k]);
            }
        }
    }

    proof fn lemma_fits_with_field_if(&self, m: MessageModel, j: int, s: StorageModel)
        requires
            self.valid_field(m, j),
        ensures
            self.storage_fits(self.field_of(m, j), s) ==> self.message_fits(with_field(m, j, s)),
    {
        if self.storage_fits(self.field_of(m, j), s) {
            self.lemma_fits_with_field(m, j, s);
        }
    }

    proof fn lemma_field_fits(&self, m: MessageModel, j: int)
        requires
            self.valid_field(m, j),
        ensures
            self.storage_fits(self.field_of(m, j), m.fields[j]),
            self.field_of(m, j).wf_in(self),
    {
    }

    /// Whether field `field` of `m` is present (singular) or non-empty.
    pub fn has_field(&self, m: &DynamicMessage, field: usize) -> (r: bool)
        requires
            self.valid_field(m@, field as int),
        ensures
            r == spec_has_field(m@, field as int),
    {
        proof {
            lemma_storages_view(m.fields@);
            lemma_values_view_len_of(m, field);
        }
        match &m.fields[field] {
            FieldStorage::Singular(o) => o.is_some(),
            FieldStorage::Repeated(vs) => vs.len() > 0,
            FieldStorage::Keyed(es) => es.len() > 0,
        }
    }

    /// How many values field `field` of `m` holds.
    pub fn len_field(&self, m: &DynamicMessage, field: usize) -> (r: usize)
        requires
            self.valid_field(m@, field as int),
        ensures
            r == spec_len_field(m@, field as int),
    {
        proof {
            lemma_storages_view(m.fields@);
            lemma_values_view_len_of(m, field);
        }
        match &m.fields[field] {
            FieldStorage::Singular(o) => if o.is_some() { 1 } else { 0 },
            FieldStorage::Repeated(vs) => vs.len(),
            FieldStorage::Keyed(es) => es.len(),
        }
    }

    /// The value of singular field `field` of `m`, or its default when absent.
    pub fn get_singular_field_or_default(&self, m: &DynamicMessage, field: usize) -> (r: ReflectValueBox)
        requires
            self.valid_field(m@, field as int),
            self.field_of(m@, field as int).cardinality == Cardinality::Singular,
        ensures
            r@ == self.get_or_default_model(m@, field as int),
            self.value_fits(self.field_of(m@, field as int).field_type, self.field_of(m@, field as int).type_index, r@),
    {
        proof {
            lemma_storages_view(m.fields@);
            self.lemma_field_fits(m@, field as int);
        }
        let fd = &self.messages[m.descriptor].fields[field];
        match &m.fields[field] {
            FieldStorage::Singular(Some(v)) => v.deep_clone(),
            _ => self.default_value(fd),
        }
    }

    /// Installs `v` as the value of singular field `field` of `m`.
    pub fn set_singular_field(&self, m: &mut DynamicMessage, field: usize, v: ReflectValueBox)
        requires
            self.valid_field(old(m)@, field as int),
            self.field_of(old(m)@, field as int).cardinality == Cardinality::Singular,
            self.value_fits(
                self.field_of(old(m)@, field as int).field_type,
                self.field_of(old(m)@, field as int).type_index,
                v@,
            ),
        ensures
            final(m)@ == with_field(old(m)@, field as int, StorageModel::Singular(Some(v@))),
            self.message_fits(final(m)@),
    {
        let ghost v_model = v@;
        proof {
            lemma_storages_view(m.fields@);
            lemma_storages_view_update(m.fields@, field as int, FieldStorage::Singular(Some(v)));
            self.lemma_fits_with_field(m@, field as int, StorageModel::Singular(Some(v_model)));
        }
        m.fields.set(field, FieldStorage::Singular(Some(v)));
    }
}

proof fn lemma_values_view_len_of(m: &DynamicMessage, field: usize)
    requires
        field < m.fields@.len(),
    ensures
        m.fields@[field as int] matches FieldStorage::Repeated(vs) ==> values_view(vs@).len() == vs@.len(),
        m.fields@[field as int] matches FieldStorage::Keyed(es) ==> crate::value::entries_view(es@).len() == es@.len(),
{
    match m.fields@[field as int] {
        FieldStorage::Repeated(vs) => lemma_values_view(vs@),
        FieldStorage::Keyed(es) => crate::value::lemma_entries_view(es@),
        _ => {},
    }
}

impl FileDescriptor {
    /// The sub-message in singular message field `field` of `m`, or a fresh
    /// instance of the field's message type when absent.
    pub fn get_message(&self, m: &DynamicMessage, field: usize) -> (r: DynamicMessage)
        requires
            self.valid_field(m@, field as int),
            self.field_of(m@, field as int).cardinality == Cardinality::Singular,
            self.field_of(m@, field as int).field_type == FieldType::Message,
        ensures
            ValueModel::Message(r@) == self.get_or_default_model(m@, field as int),
            r@.descriptor == self.field_of(m@, field as int).type_index as nat,
            self.message_fits(r@),
    {
        proof {
            lemma_storages_view(m.fields@);
            self.lemma_field_fits(m@, field as int);
        }
        let type_index = self.messages[m.descriptor].fields[field].type_index;
        match &m.fields[field] {
            FieldStorage::Singular(Some(ReflectValueBox::Message(sub))) => sub.deep_clone(),
            _ => new_instance(self, type_index),
        }
    }

    /// Mutable access to the sub-message in singular message field `field`
    /// of `m`; a fresh instance is installed first when the field is absent.
    /// The field holds whatever the returned reference holds when released.
    pub fn mut_message<'a>(&self, m: &'a mut DynamicMessage, field: usize) -> (r: &'a mut DynamicMessage)
        requires
            self.valid_field(old(m)@, field as int),
            self.field_of(old(m)@, field as int).cardinality == Cardinality::Singular,
            self.field_of(old(m)@, field as int).field_type == FieldType::Message,
        ensures
            ValueModel::Message(r@) == self.get_or_default_model(old(m)@, field as int),
            r@.descriptor == self.field_of(old(m)@, field as int).type_index as nat,
            self.message_fits(r@),
            final(m)@ == with_field(old(m)@, field as int, StorageModel::Singular(Some(ValueModel::Message(final(r)@)))),
            self.message_fits(final(r)@) && final(r)@.descriptor == r@.descriptor ==> self.message_fits(final(m)@),
    {
        proof {
            lemma_storages_view(m.fields@);
            self.lemma_field_fits(m@, field as int);
        }
        let type_index = self.messages[m.descriptor].fields[field].type_index;
        let present = match &m.fields[field] {
            FieldStorage::Singular(Some(_)) => true,
            _ => false,
        };
        if !present {
            let fresh = new_instance(self, type_index);
            self.set_singular_field(m, field, ReflectValueBox::Message(Box::new(fresh)));
        }
        let ghost mid = *m;
        proof {
            lemma_storages_view(m.fields@);
            assert(m.fields@[field as int].view() == storages_view(m.fields@)[field as int]);
            assert(m@.fields[field as int] == StorageModel::Singular(Some(self.get_or_default_model(old(m)@, field as int))));
            assert(self.get_or_default_model(old(m)@, field as int) is Message);
            assert(m.fields@[field as int] matches FieldStorage::Singular(Some(ReflectValueBox::Message(_))));
        }
        let slot = &mut m.fields[field];
        match slot {
            FieldStorage::Singular(Some(ReflectValueBox::Message(sub))) => {
                let r = &mut **sub;
                proof {
                    lemma_storages_view_update(mid.fields@, field as int, FieldStorage::Singular(Some(ReflectValueBox::Message(Box::new(*final(r))))));
                    let x = StorageModel::Singular(Some(ValueModel::Message(final(r)@)));
                    assert(storages_view(mid.fields@).update(field as int, x) =~= old(m)@.fields.update(field as int, x));
                    self.lemma_fits_with_field_if(mid@, field as int, StorageModel::Singular(Some(ValueModel::Message(final(r)@))));
                }
                r
            },
            _ => unreached(),
        }
    }

    /// A read view over repeated field `field` of `m`.
    pub fn get_repeated<'a>(&self, m: &'a DynamicMessage, field: usize) -> (r: RepeatedView<'a>)
        requires
            self.valid_field(m@, field as int),
            self.field_of(m@, field as int).cardinality == Cardinality::Repeated,
        ensures
            r@ == repeated_model(m@, field as int),
    {
        proof {
            lemma_storages_view(m.fields@);
            self.lemma_field_fits(m@, field as int);
        }
        match &m.fields[field] {
            FieldStorage::Repeated(vs) => RepeatedView { values: vs },
            _ => unreached(),
        }
    }

    /// A mutable view over repeated field `field` of `m`. The field holds
    /// the view's elements when the view is released.
    pub fn mut_repeated<'a>(&'a self, m: &'a mut DynamicMessage, field: usize) -> (r: RepeatedMut<'a>)
        requires
            self.valid_field(old(m)@, field as int),
            self.field_of(old(m)@, field as int).cardinality == Cardinality::Repeated,
        ensures
            r@ == repeated_model(old(m)@, field as int),
            r.file == self,
            r.field_type == self.field_of(old(m)@, field as int).field_type,
            r.type_index == self.field_of(old(m)@, field as int).type_index,
            final(m)@ == with_field(old(m)@, field as int, StorageModel::Repeated(values_view((*final(r.values))@))),
            self.storage_fits(self.field_of(old(m)@, field as int), StorageModel::Repeated(values_view((*final(r.values))@)))
                ==> self.message_fits(final(m)@),
    {
        proof {
            lemma_storages_view(m.fields@);
            self.lemma_field_fits(m@, field as int);
        }
        let ghost before = *m;
        let field_type = self.messages[m.descriptor].fields[field].field_type;
        let type_index = self.messages[m.descriptor].fields[field].type_index;
        let slot = &mut m.fields[field];
        match slot {
            FieldStorage::Repeated(vs) => {
                proof {
                    let fin = *final(vs);
                    lemma_storages_view_update(before.fields@, field as int, FieldStorage::Repeated(fin));
                    lemma_values_view(vs@);
                    self.lemma_fits_with_field_if(before@, field as int, StorageModel::Repeated(values_view(fin@)));
                }
                RepeatedMut { values: vs, file: self, field_type, type_index }
            },
            _ => unreached(),
        }
    }
}

/// A read view over the elements of a repeated field.
pub struct RepeatedView<'a> {
    values: &'a Vec<ReflectValueBox>,
}

impl<'a> RepeatedView<'a> {
    pub closed spec fn view(&self) -> Seq<ValueModel> {
        values_view(self.values@)
    }

    /// Number of elements.
    pub fn len(&self) -> (r: usize)
        ensures
            r == self@.len(),
    {
        proof {
            lemma_values_view(self.values@);
        }
        self.values.len()
    }

    /// Whether there are no elements.
    pub fn is_empty(&self) -> (r: bool)
        ensures
            r == (self@.len() == 0),
    {
        proof {
            lemma_values_view(self.values@);
        }
        self.values.len() == 0
    }

    /// The element at position `i`.
    pub fn get(&self, i: usize) -> (r: &'a ReflectValueBox)
        requires
            i < self@.len(),
        ensures
            r@ == self@[i as int],
    {
        proof {
            lemma_values_view(self.values@);
        }
        &self.values[i]
    }

    /// Whether the elements equal `other`, in order.
    pub fn eq_values(&self, other: &Vec<ReflectValueBox>) -> (r: bool)
        ensures
            r == (self@ == values_view(other@)),
    {
        crate::value::values_eq(self.values, other)
    }

    /// Debug text of the elements: `[` and their texts, comma-separated, and `]`.
    pub fn debug_string(&self) -> (r: String)
        ensures
            r@ == list_text(self@),
    {
        values_text(self.values)
    }
}

/// A mutable view over the elements of a repeated field; elements pushed
/// must fit the field's type.
pub struct RepeatedMut<'a> {
    pub values: &'a mut Vec<ReflectValueBox>,
    pub file: &'a FileDescriptor,
    pub field_type: FieldType,
    pub type_index: usize,
}

impl<'a> RepeatedMut<'a> {
    pub open spec fn view(&self) -> Seq<ValueModel> {
        values_view((*self.values)@)
    }

    /// Number of elements.
    pub fn len(&self) -> (r: usize)
        ensures
            r == self@.len(),
    {
        proof {
            lemma_values_view(self.values@);
        }
        self.values.len()
    }

    /// The element at position `i`.
    pub fn get(&self, i: usize) -> (r: &ReflectValueBox)
        requires
            i < self@.len(),
        ensures
            r@ == self@[i as int],
    {
        proof {
            lemma_values_view(self.values@);
        }
        &self.values[i]
    }

    /// Appends `v`, which must fit the field's element type.
    pub fn push(&mut self, v: ReflectValueBox)
        requires
            old(self).file.value_fits(old(self).field_type, old(self).type_index, v@),
        ensures
            final(self)@ == old(self)@.push(v@),
            final(self).file == old(self).file,
            final(self).field_type == old(self).field_type,
            final(self).type_index == old(self).type_index,
            *final(final(self).values) == *final(old(self).values),
    {
        proof {
            lemma_values_view(self.values@);
        }
        self.values.push(v);
        proof {
            lemma_values_view(self.values@);
            assert(values_view(self.values@) =~= old(self)@.push(v@));
        }
    }

    /// Whether the elements equal `other`, in order.
    pub fn eq_values(&self, other: &Vec<ReflectValueBox>) -> (r: bool)
        ensures
            r == (self@ == values_view(other@)),
    {
        crate::value::values_eq(self.values, other)
    }
}

impl FileDescriptor {
    /// A read view over keyed field `field` of `m`.
    pub fn get_map<'a>(&self, m: &'a DynamicMessage, field: usize) -> (r: MapView<'a>)
        requires
            self.valid_field(m@, field as int),
            self.field_of(m@, field as int).cardinality == Cardinality::Keyed,
        ensures
            r@ == keyed_model(m@, field as int),
    {
        proof {
            lemma_storages_view(m.fields@);
            self.lemma_field_fits(m@, field as int);
        }
        match &m.fields[field] {
            FieldStorage::Keyed(es) => MapView { entries: es },
            _ => unreached(),
        }
    }

    /// A mutable view over keyed field `field` of `m`. The field holds the
    /// view's entries when the view is released.
    pub fn mut_map<'a>(&'a self, m: &'a mut DynamicMessage, field: usize) -> (r: MapMut<'a>)
        requires
            self.valid_field(old(m)@, field as int),
            self.field_of(old(m)@, field as int).cardinality == Cardinality::Keyed,
        ensures
            r@ == keyed_model(old(m)@, field as int),
            r.file == self,
            r.key_type == self.field_of(old(m)@, field as int).key_type,
            r.field_type == self.field_of(old(m)@, field as int).field_type,
            r.type_index == self.field_of(old(m)@, field as int).type_index,
            r.entries_fit(),
            final(m)@ == with_field(old(m)@, field as int, StorageModel::Keyed(entries_view((*final(r.entries))@))),
            self.storage_fits(self.field_of(old(m)@, field as int), StorageModel::Keyed(entries_view((*final(r.entries))@)))
                ==> self.message_fits(final(m)@),
    {
        proof {
            lemma_storages_view(m.fields@);
            self.lemma_field_fits(m@, field as int);
        }
        let ghost before = *m;
        let key_type = self.messages[m.descriptor].fields[field].key_type;
        let field_type = self.messages[m.descriptor].fields[field].field_type;
        let type_index = self.messages[m.descriptor].fields[field].type_index;
        let slot = &mut m.fields[field];
        match slot {
            FieldStorage::Keyed(es) => {
                proof {
                    let fin = *final(es);
                    lemma_storages_view_update(before.fields@, field as int, FieldStorage::Keyed(fin));
                    self.lemma_fits_with_field_if(before@, field as int, StorageModel::Keyed(entries_view(fin@)));
                }
                MapMut { entries: es, file: self, key_type, field_type, type_index }
            },
            _ => unreached(),
        }
    }
}

/// Position of the entry with key `k` in `es`, if any.
fn find_key(es: &Vec<(ReflectValueBox, ReflectValueBox)>, k: &ReflectValueBox) -> (r: Option<usize>)
    ensures
        r is None ==> forall|i: int| 0 <= i < es@.len() ==> (#[trigger] entries_view(es@)[i]).0 != k@,
        r matches Some(i) ==> i < es@.len() && entries_view(es@)[i as int].0 == k@,
{
    proof {
        lemma_entries_view(es@);
    }
    let mut i: usize = 0;
    while i < es.len()
        invariant
            i <= es@.len(),
            entries_view(es@).len() == es@.len(),
            forall|j: int| 0 <= j < es@.len() ==> #[trigger] entries_view(es@)[j] == (es@[j].0@, es@[j].1@),
            forall|j: int| 0 <= j < i ==> (#[trigger] entries_view(es@)[j]).0 != k@,
        decreases es.len() - i,
    {
        if es[i].0.value_eq(k) {
            return Some(i);
        }
        i = i + 1;
    }
    None
}

/// The value paired with key `k` in `es`, if any.
pub open spec fn lookup(es: Seq<(ValueModel, ValueModel)>, k: ValueModel) -> Option<ValueModel> {
    if exists|i: int| 0 <= i < es.len() && es[i].0 == k {
        Some(es[choose|i: int| 0 <= i < es.len() && es[i].0 == k].1)
    } else {
        None
    }
}

proof fn lemma_lookup_at(es: Seq<(ValueModel, ValueModel)>, i: int)
    requires
        keys_distinct(es),
        0 <= i < es.len(),
    ensures
        lookup(es, es[i].0) == Some(es[i].1),
{
    let k = es[i].0;
    assert(exists|j: int| 0 <= j < es.len() && es[j].0 == k);
    let c = choose|j: int| 0 <= j < es.len() && es[j].0 == k;
    assert(c == i) by {
        if c < i {
            assert(es[c].0 != es[i].0);
        } else if c > i {
            assert(es[i].0 != es[c].0);
        }
    }
}

/// A read view over the entries of a keyed field.
pub struct MapView<'a> {
    entries: &'a Vec<(ReflectValueBox, ReflectValueBox)>,
}

impl<'a> MapView<'a> {
    pub closed spec fn view(&self) -> Seq<(ValueModel, ValueModel)> {
        entries_view(self.entries@)
    }

    /// Number of entries.
    pub fn len(&self) -> (r: usize)
        ensures
            r == self@.len(),
    {
        proof {
            lemma_entries_view(self.entries@);
        }
        self.entries.len()
    }

    /// Whether there are no entries.
    pub fn is_empty(&self) -> (r: bool)
        ensures
            r == (self@.len() == 0),
    {
        proof {
            lemma_entries_view(self.entries@);
        }
        self.entries.len() == 0
    }

    /// The value under key `k`, if any.
    pub fn get(&self, k: &ReflectValueBox) -> (r: Option<&'a ReflectValueBox>)
        requires
            keys_distinct(self@),
        ensures
            r is None <==> lookup(self@, k@) is None,
            r matches Some(v) ==> lookup(self@, k@) == Some(v@),
    {
        proof {
            lemma_entries_view(self.entries@);
        }
        match find_key(self.entries, k) {
            Some(i) => {
                proof {
                    lemma_lookup_at(self@, i as int);
                }
                Some(&self.entries[i].1)
            },
            None => None,
        }
    }
}

/// A mutable view over the entries of a keyed field; inserted keys and
/// values must fit the field's types.
pub struct MapMut<'a> {
    pub entries: &'a mut Vec<(ReflectValueBox, ReflectValueBox)>,
    pub file: &'a FileDescriptor,
    pub key_type: FieldType,
    pub field_type: FieldType,
    pub type_index: usize,
}

impl<'a> MapMut<'a> {
    pub open spec fn view(&self) -> Seq<(ValueModel, ValueModel)> {
        entries_view((*self.entries)@)
    }

    /// Keys are distinct and every key and value fits the field's types.
    pub open spec fn entries_fit(&self) -> bool {
        &&& keys_distinct(self@)
        &&& forall|k: int|
            0 <= k < self@.len() ==> self.file.value_fits(self.key_type, 0, (#[trigger] self@[k]).0)
                && self.file.value_fits(self.field_type, self.type_index, self@[k].1)
    }

    /// Number of entries.
    pub fn len(&self) -> (r: usize)
        ensures
            r == self@.len(),
    {
        proof {
            lemma_entries_view(self.entries@);
        }
        self.entries.len()
    }

    /// Whether there are no entries.
    pub fn is_empty(&self) -> (r: bool)
        ensures
            r == (self@.len() == 0),
    {
        proof {
            lemma_entries_view(self.entries@);
        }
        self.entries.len() == 0
    }

    /// The value under key `k`, if any.
    pub fn get(&self, k: &ReflectValueBox) -> (r: Option<&ReflectValueBox>)
        requires
            keys_distinct(self@),
        ensures
            r is None <==> lookup(self@, k@) is None,
            r matches Some(v) ==> lookup(self@, k@) == Some(v@),
    {
        proof {
            lemma_entries_view(self.entries@);
        }
        match find_key(self.entries, k) {
            Some(i) => {
                proof {
                    lemma_lookup_at(self@, i as int);
                }
                Some(&self.entries[i].1)
            },
            None => None,
        }
    }

    /// Puts `v` under key `k`: replaces the value of an existing entry with
    /// that key in place, else appends a new entry. Returns the value replaced.
    pub fn insert(&mut self, k: ReflectValueBox, v: ReflectValueBox) -> (r: Option<ReflectValueBox>)
        requires
            old(self).entries_fit(),
            old(self).file.value_fits(old(self).key_type, 0, k@),
            old(self).file.value_fits(old(self).field_type, old(self).type_index, v@),
        ensures
            final(self).file == old(self).file,
            final(self).key_type == old(self).key_type,
            final(self).field_type == old(self).field_type,
            final(self).type_index == old(self).type_index,
            *final(final(self).entries) == *final(old(self).entries),
            final(self).entries_fit(),
            lookup(old(self)@, k@) is None ==> r is None && final(self)@ == old(self)@.push((k@, v@)),
            lookup(old(self)@, k@) is Some ==> (r matches Some(o) && lookup(old(self)@, k@) == Some(o@)),
            lookup(old(self)@, k@) is Some ==> exists|i: int|
                0 <= i < old(self)@.len() && old(self)@[i].0 == k@ && final(self)@ == old(self)@.update(i, (k@, v@)),
            lookup(final(self)@, k@) == Some(v@),
    {
        proof {
            lemma_entries_view(self.entries@);
        }
        let ghost old_view = self@;
        let ghost kv = (k@, v@);
        match find_key(self.entries, &k) {
            Some(i) => {
                proof {
                    lemma_lookup_at(old_view, i as int);
                }
                let prev = self.entries[i].1.deep_clone();
                self.entries.set(i, (k, v));
                proof {
                    lemma_entries_view(self.entries@);
                    assert(self@ =~= old_view.update(i as int, kv));
                    assert(keys_distinct(self@)) by {
                        assert forall|a: int, b: int| 0 <= a < b < self@.len() implies self@[a].0 != self@[b].0 by {
                            assert(old_view[i as int].0 == kv.0);
                        }
                    }
                    lemma_lookup_at(self@, i as int);
                }
                Some(prev)
            },
            None => {
                self.entries.push((k, v));
                proof {
                    lemma_entries_view(self.entries@);
                    assert(self@ =~= old_view.push(kv));
                    assert(!(exists|j: int| 0 <= j < old_view.len() && old_view[j].0 == kv.0));
                    assert(keys_distinct(self@)) by {
                        assert forall|a: int, b: int| 0 <= a < b < self@.len() implies self@[a].0 != self@[b].0 by {
                            if b == old_view.len() {
                                assert(entries_view(old(self).entries@)[a].0 != k@);
                            }
                        }
                    }
                    lemma_lookup_at(self@, old_view.len() as int);
                }
                None
            },
        }
    }
}

} // verus!
