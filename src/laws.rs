use vstd::prelude::*;
use crate::accessor::{keyed_model, repeated_model, spec_has_field, spec_len_field, with_field};
use crate::descriptor::{
    Cardinality, FieldType, FileDescriptor, empty_storage, is_scalar_type, spec_runtime_type_of,
};
use crate::value::{MessageModel, StorageModel, ValueModel};

verus! {

/// On a fresh instance no field is present or non-empty, every singular
/// field reads as its schema default, and reading leaves it absent.
pub proof fn lemma_fresh_instance(file: &FileDescriptor, d: nat, j: int)
    requires
        file.wf(),
        d < file.messages@.len(),
        0 <= j < file.messages@[d as int].fields@.len(),
    ensures
        file.valid_field(file.new_instance_model(d), j),
        !spec_has_field(file.new_instance_model(d), j),
        spec_len_field(file.new_instance_model(d), j) == 0,
        file.field(d, j).cardinality == Cardinality::Singular ==> file.get_or_default_model(
            file.new_instance_model(d),
            j,
        ) == file.default_model(file.field(d, j)),
{
    file.lemma_new_instance_fits(d);
    let m = file.new_instance_model(d);
    assert(m.fields[j] == empty_storage(file.field(d, j).cardinality));
}

/// After a well-typed value is installed in a singular field, the field is
/// present, reads back as that value, and the message stays well-typed.
pub proof fn lemma_set_then_get(file: &FileDescriptor, m: MessageModel, j: int, v: ValueModel)
    requires
        file.valid_field(m, j),
        file.field_of(m, j).cardinality == Cardinality::Singular,
        file.value_fits(file.field_of(m, j).field_type, file.field_of(m, j).type_index, v),
    ensures
        spec_has_field(with_field(m, j, StorageModel::Singular(Some(v))), j),
        file.get_or_default_model(with_field(m, j, StorageModel::Singular(Some(v))), j) == v,
        file.valid_field(with_field(m, j, StorageModel::Singular(Some(v))), j),
{
    let n = with_field(m, j, StorageModel::Singular(Some(v)));
    assert forall|k: int| 0 <= k < n.fields.len() implies file.storage_fits(
        file.messages@[n.descriptor as int].fields@[k],
        #[trigger] n.fields[k],
    ) by {
        if k != j {
            assert(n.fields[k] == m.fields[k]);
        }
    }
}

/// A scalar value of the field's kind, installed in a singular field, reads
/// back equal to itself.
pub proof fn lemma_scalar_round_trip(file: &FileDescriptor, m: MessageModel, j: int, v: ValueModel)
    requires
        file.valid_field(m, j),
        file.field_of(m, j).cardinality == Cardinality::Singular,
        is_scalar_type(file.field_of(m, j).field_type),
        v.runtime_type() == spec_runtime_type_of(file.field_of(m, j).field_type),
    ensures
        file.get_or_default_model(with_field(m, j, StorageModel::Singular(Some(v))), j) == v,
{
    lemma_set_then_get(file, m, j, v);
}

/// Pushing three values in order onto an empty repeated field leaves exactly
/// those values, in that order, and the field non-empty.
pub proof fn lemma_three_pushes(
    file: &FileDescriptor,
    m: MessageModel,
    j: int,
    v0: ValueModel,
    v1: ValueModel,
    v2: ValueModel,
)
    requires
        file.valid_field(m, j),
        file.field_of(m, j).cardinality == Cardinality::Repeated,
        repeated_model(m, j).len() == 0,
    ensures
        ({
            let n = with_field(m, j, StorageModel::Repeated(repeated_model(m, j).push(v0).push(v1).push(v2)));
            &&& spec_len_field(n, j) == 3
            &&& repeated_model(n, j) == seq![v0, v1, v2]
            &&& seq![v0, v1, v2] == repeated_model(n, j)
            &&& spec_has_field(n, j)
        }),
{
    assert(repeated_model(m, j).push(v0).push(v1).push(v2) =~= seq![v0, v1, v2]);
}

/// A keyed field of a fresh instance has no entries.
pub proof fn lemma_fresh_map_empty(file: &FileDescriptor, d: nat, j: int)
    requires
        file.wf(),
        d < file.messages@.len(),
        0 <= j < file.messages@[d as int].fields@.len(),
        file.field(d, j).cardinality == Cardinality::Keyed,
    ensures
        keyed_model(file.new_instance_model(d), j).len() == 0,
        !spec_has_field(file.new_instance_model(d), j),
{
    lemma_fresh_instance(file, d, j);
}

/// A sub-message changed through the parent's singular message field is
/// what that field reads afterwards, and the parent stays well-typed.
pub proof fn lemma_nested_update(file: &FileDescriptor, m: MessageModel, j: int, sub: MessageModel)
    requires
        file.valid_field(m, j),
        file.field_of(m, j).cardinality == Cardinality::Singular,
        file.field_of(m, j).field_type == FieldType::Message,
        file.message_fits(sub),
        sub.descriptor == file.field_of(m, j).type_index as nat,
    ensures
        file.get_or_default_model(with_field(m, j, StorageModel::Singular(Some(ValueModel::Message(sub)))), j)
            == ValueModel::Message(sub),
        spec_has_field(with_field(m, j, StorageModel::Singular(Some(ValueModel::Message(sub)))), j),
        file.message_fits(with_field(m, j, StorageModel::Singular(Some(ValueModel::Message(sub))))),
{
    lemma_set_then_get(file, m, j, ValueModel::Message(sub));
}

} // verus!
