//! What each operation does, in terms of its inputs and results alone.

use crate::decimal::decimal;
use crate::document::{
    document_size, lookup, same_document, ConvexObject, ConvexValue, DocumentUpdate,
    ResolvedDocument,
};
use crate::error::WriteError;
use crate::ids::{
    developer_id_of, id_precedes, BootstrapTableIds, ResolvedDocumentId, TabletIdAndTableNumber,
};
use crate::laws::{
    law_conflicts_persist, law_consecutive_writes_join, law_document_read_sees_the_document,
    law_indexes_read_sees_the_indexes,
};
use crate::model::{
    document_read, indexes_read, lists_updates, table_reads, table_reads_outcome, whole_table_read,
    Operation, WriteRequest, WriteSet,
};
use crate::reads::{
    conflicts, index_key, IndexRead, IndexReadView, Interval, IntervalView, KeyPart, KeyPartView,
    TransactionReadSet,
};
use crate::writes::TransactionWriteSize;
use vstd::prelude::*;

verus! {

/// Two objects are equal exactly if they have as many fields, each with the
/// same name and the same bytes as the other's.
pub proof fn law_objects_are_equal_by_fields(a: ConvexObject, b: ConvexObject)
    ensures
        a@ == b@ <==> {
            &&& a.fields@.len() == b.fields@.len()
            &&& forall|i: int|
                0 <= i < a.fields@.len() ==> (#[trigger] a.fields@[i]).0@ == b.fields@[i].0@
                    && a.fields@[i].1.bytes@ == b.fields@[i].1.bytes@
        },
        vstd::std_specs::cmp::PartialEqSpec::eq_spec(&a, &b) <==> a@ == b@,
{
    if a@ == b@ {
        assert(a@.len() == a.fields@.len() && b@.len() == b.fields@.len());
        assert forall|i: int| 0 <= i < a.fields@.len() implies (#[trigger] a.fields@[i]).0@
            == b.fields@[i].0@ && a.fields@[i].1.bytes@ == b.fields@[i].1.bytes@ by {
            assert(a@[i] == b@[i]);
        }
    }
    if a.fields@.len() == b.fields@.len() && forall|i: int|
        0 <= i < a.fields@.len() ==> (#[trigger] a.fields@[i]).0@ == b.fields@[i].0@
            && a.fields@[i].1.bytes@ == b.fields@[i].1.bytes@ {
        assert forall|i: int| 0 <= i < a@.len() implies a@[i] == b@[i] by {
            assert(a.fields@[i].0@ == b.fields@[i].0@);
        }
        assert(a@ =~= b@);
    }
}

/// Two values are equal exactly if all their bytes are.
pub proof fn law_values_are_equal_by_bytes(a: ConvexValue, b: ConvexValue)
    ensures
        vstd::std_specs::cmp::PartialEqSpec::eq_spec(&a, &b) <==> {
            &&& a.bytes@.len() == b.bytes@.len()
            &&& forall|i: int| 0 <= i < a.bytes@.len() ==> #[trigger] a.bytes@[i] == b.bytes@[i]
        },
{
    if a.bytes@.len() == b.bytes@.len() && forall|i: int|
        0 <= i < a.bytes@.len() ==> #[trigger] a.bytes@[i] == b.bytes@[i] {
        assert(a.bytes@ =~= b.bytes@);
    }
}

/// Two documents are equal exactly if they have the same id, the same creation
/// time, and as many fields, each with the same name and the same bytes.
pub proof fn law_documents_are_equal_by_fields(a: ResolvedDocument, b: ResolvedDocument)
    ensures
        vstd::std_specs::cmp::PartialEqSpec::eq_spec(&a, &b) <==> {
            &&& a.id == b.id
            &&& a.creation_time == b.creation_time
            &&& a.value.fields@.len() == b.value.fields@.len()
            &&& forall|i: int|
                0 <= i < a.value.fields@.len() ==> (#[trigger] a.value.fields@[i]).0@
                    == b.value.fields@[i].0@ && a.value.fields@[i].1.bytes@
                    == b.value.fields@[i].1.bytes@
        },
        same_document(Some(a), Some(b)) <==> vstd::std_specs::cmp::PartialEqSpec::eq_spec(&a, &b),
        !same_document(Some(a), None),
        !same_document(None, Some(b)),
        same_document(None, None),
{
    law_objects_are_equal_by_fields(a.value, b.value);
}

/// Looking up a name gives the bytes of the first field of that name, and
/// nothing exactly if no field has it.
pub proof fn law_lookup_gives_first_field(object: ConvexObject, name: Seq<char>)
    ensures
        lookup(object@, name) is None <==> forall|i: int|
            0 <= i < object.fields@.len() ==> (#[trigger] object.fields@[i]).0@ != name,
        forall|i: int|
            {
                &&& 0 <= i < object.fields@.len()
                &&& (#[trigger] object.fields@[i]).0@ == name
                &&& forall|j: int| 0 <= j < i ==> (#[trigger] object.fields@[j]).0@ != name
            } ==> lookup(object@, name) == Some(object.fields@[i].1.bytes@),
{
    lemma_lookup_in_sequence(object@, name);
    assert forall|i: int| 0 <= i < object.fields@.len() implies (#[trigger] object.fields@[i]).0@
        == object@[i].0 && object.fields@[i].1.bytes@ == object@[i].1 by {}
    if lookup(object@, name) is None {
        assert forall|i: int| 0 <= i < object.fields@.len() implies (
        #[trigger] object.fields@[i]).0@ != name by {
            assert(object@[i].0 != name);
        }
    }
    if forall|i: int|
        0 <= i < object.fields@.len() ==> (#[trigger] object.fields@[i]).0@ != name {
        assert forall|i: int| 0 <= i < object@.len() implies (#[trigger] object@[i]).0 != name by {
            assert(object.fields@[i].0@ != name);
        }
    }
    assert forall|i: int|
        {
            &&& 0 <= i < object.fields@.len()
            &&& (#[trigger] object.fields@[i]).0@ == name
            &&& forall|j: int| 0 <= j < i ==> (#[trigger] object.fields@[j]).0@ != name
        } implies lookup(object@, name) == Some(object.fields@[i].1.bytes@) by {
        assert(object@[i].0 == name);
        assert forall|j: int| 0 <= j < i implies (#[trigger] object@[j]).0 != name by {
            assert(object.fields@[j].0@ != name);
        }
    }
}

/// The same of a sequence of names and values.
proof fn lemma_lookup_in_sequence(fields: Seq<(Seq<char>, Seq<u8>)>, name: Seq<char>)
    ensures
        lookup(fields, name) is None <==> forall|i: int|
            0 <= i < fields.len() ==> (#[trigger] fields[i]).0 != name,
        forall|i: int|
            {
                &&& 0 <= i < fields.len()
                &&& (#[trigger] fields[i]).0 == name
                &&& forall|j: int| 0 <= j < i ==> (#[trigger] fields[j]).0 != name
            } ==> lookup(fields, name) == Some(fields[i].1),
    decreases fields.len(),
{
    if fields.len() > 0 && fields[0].0 != name {
        let rest = fields.drop_first();
        lemma_lookup_in_sequence(rest, name);
        if lookup(rest, name) is None {
            assert forall|i: int| 0 <= i < fields.len() implies (#[trigger] fields[i]).0 != name by {
                if i > 0 {
                    assert(rest[i - 1].0 != name);
                }
            }
        }
        if forall|i: int| 0 <= i < fields.len() ==> (#[trigger] fields[i]).0 != name {
            assert forall|i: int| 0 <= i < rest.len() implies (#[trigger] rest[i]).0 != name by {
                assert(fields[i + 1].0 != name);
            }
        }
        assert forall|i: int|
            {
                &&& 0 <= i < fields.len()
                &&& (#[trigger] fields[i]).0 == name
                &&& forall|j: int| 0 <= j < i ==> (#[trigger] fields[j]).0 != name
            } implies lookup(fields, name) == Some(fields[i].1) by {
            assert(i > 0);
            assert(rest[i - 1] == fields[i]);
            assert forall|j: int| 0 <= j < i - 1 implies (#[trigger] rest[j]).0 != name by {
                assert(fields[j + 1].0 != name);
            }
        }
    }
}

/// If two writes to one document are carried out with none between, what the
/// first leaves and what the second replaces agree: both are absent, or they
/// have the same id, the same creation time, and for every name the same value.
pub proof fn law_consecutive_writes_agree_on_fields(
    writes: WriteSet,
    operations: Seq<Operation>,
    id: ResolvedDocumentId,
    i: int,
    k: int,
    name: Seq<char>,
)
    requires
        i < k,
        writes.writes_at(operations, i, id),
        writes.writes_at(operations, k, id),
        forall|j: int| i < j < k ==> !(#[trigger] writes.writes_at(operations, j, id)),
    ensures
        match (
            operations[i]->Update_0.document_update.new_document,
            operations[k]->Update_0.document_update.old_document,
        ) {
            (Some(left), Some(replaced)) => {
                &&& left.id == replaced.id
                &&& left.creation_time == replaced.creation_time
                &&& lookup(left.value@, name) == lookup(replaced.value@, name)
                &&& left.value.fields@.len() == replaced.value.fields@.len()
                &&& forall|j: int|
                    0 <= j < left.value.fields@.len() ==> (#[trigger] left.value.fields@[j]).0@
                        == replaced.value.fields@[j].0@ && left.value.fields@[j].1.bytes@
                        == replaced.value.fields@[j].1.bytes@
            },
            (None, None) => true,
            _ => false,
        },
{
    law_consecutive_writes_join(writes, operations, id, i, k);
    match (
        operations[i]->Update_0.document_update.new_document,
        operations[k]->Update_0.document_update.old_document,
    ) {
        (Some(left), Some(replaced)) => law_documents_are_equal_by_fields(left, replaced),
        _ => {},
    }
}

/// A write is a duplicate insertion exactly if it replaces no document and the
/// transaction has written its very document.
pub proof fn law_duplicate_insert_exactly(writes: WriteSet, request: WriteRequest)
    ensures
        writes.update_outcome(request) == Err::<(), WriteError>(WriteError::DuplicateInsert) <==> {
            &&& request.document_update.old_document is None
            &&& writes.updates.contains_key(request.document_id)
        },
{
}

/// A write reuses an id exactly if it replaces no document, and the
/// transaction has not written its very document but allocated its very id.
pub proof fn law_duplicate_id_exactly(
    writes: WriteSet,
    request: WriteRequest,
    document_id: ResolvedDocumentId,
)
    ensures
        writes.update_outcome(request) == Err::<(), WriteError>(
            WriteError::DuplicateId { document_id },
        ) <==> {
            &&& document_id == request.document_id
            &&& request.document_update.old_document is None
            &&& !writes.updates.contains_key(document_id)
            &&& writes.generated_ids.contains(document_id)
        },
{
}

/// A write fails for want of a stored form of its tablet's id exactly if it is
/// no repeated insertion, there is no such form, and its table is neither
/// `_tables` nor `_index`. It fails for the reason given.
pub proof fn law_tablet_id_not_serialized_exactly(
    writes: WriteSet,
    request: WriteRequest,
    reason: String,
)
    ensures
        writes.update_outcome(request) == Err::<(), WriteError>(
            WriteError::TabletIdNotSerialized { reason },
        ) <==> {
            let id = request.document_id;
            &&& request.document_update.old_document is None ==> !writes.updates.contains_key(id)
                && !writes.generated_ids.contains(id)
            &&& id.0 != request.tables.tables_id
            &&& id.0 != request.tables.index_id
            &&& request.id_encoding.table_id_value == Err::<ConvexValue, String>(reason)
        },
{
}

/// A write to a user table exceeds a limit exactly if it is counted, and with
/// it the writes to user tables, or else their bytes, are more than the limit
/// that the error names.
pub proof fn law_user_limits_exactly(writes: WriteSet, request: WriteRequest, limit: usize)
    ensures
        ({
            let id = request.document_id;
            let update = request.document_update;
            let outcome = writes.update_outcome(request);
            let counted = {
                &&& update.old_document is None ==> !writes.updates.contains_key(id)
                    && !writes.generated_ids.contains(id)
                &&& request.id_encoding.table_id_value is Ok || id.0 == request.tables.tables_id
                    || id.0 == request.tables.index_id
            };
            let num_writes = writes.user_size.num_writes + 1;
            let size = writes.user_size.size + request.id_encoding.size + match update.new_document {
                Some(document) => document.value.size as int,
                None => 0,
            };
            let max_num_writes = request.limits.max_num_user_writes;
            let max_size = request.limits.max_user_write_size_bytes;
            &&& outcome == Err::<(), WriteError>(WriteError::TooManyWrites { limit }) <==> {
                &&& counted && !request.is_system_document
                &&& num_writes > max_num_writes
                &&& limit == max_num_writes
            }
            &&& outcome == Err::<(), WriteError>(WriteError::TooManyBytesWritten { limit }) <==> {
                &&& counted && !request.is_system_document
                &&& num_writes <= max_num_writes
                &&& size > max_size
                &&& limit == max_size
            }
        }),
{
}

/// A write to a system table exceeds a limit exactly if it is counted, and
/// with it the writes to system tables, or else their bytes, are more than the
/// limit. The error names how many they are.
pub proof fn law_system_limits_exactly(writes: WriteSet, request: WriteRequest, number: usize)
    requires
        writes.system_size.num_writes + 1 <= usize::MAX,
        writes.system_size.size + request.id_encoding.size + (
        match request.document_update.new_document {
            Some(document) => document.value.size as int,
            None => 0,
        }) <= usize::MAX,
    ensures
        ({
            let id = request.document_id;
            let update = request.document_update;
            let outcome = writes.update_outcome(request);
            let counted = {
                &&& update.old_document is None ==> !writes.updates.contains_key(id)
                    && !writes.generated_ids.contains(id)
                &&& request.id_encoding.table_id_value is Ok || id.0 == request.tables.tables_id
                    || id.0 == request.tables.index_id
            };
            let num_writes = writes.system_size.num_writes + 1;
            let size = writes.system_size.size + request.id_encoding.size
                + match update.new_document {
                Some(document) => document.value.size as int,
                None => 0,
            };
            let max_num_writes = request.limits.max_system_num_writes;
            let max_size = request.limits.max_system_write_size_bytes;
            &&& outcome == Err::<(), WriteError>(
                WriteError::TooManySystemWrites { num_writes: number },
            ) <==> {
                &&& counted && request.is_system_document
                &&& num_writes > max_num_writes
                &&& number == num_writes
            }
            &&& outcome == Err::<(), WriteError>(WriteError::TooManySystemBytes { size: number })
                <==> {
                &&& counted && request.is_system_document
                &&& num_writes <= max_num_writes
                &&& size > max_size
                &&& number == size
            }
        }),
{
}

/// A write is inconsistent only if its document was written before, and what
/// was last written is not the document that it replaces.
pub proof fn law_inconsistent_only_if_stale(writes: WriteSet, request: WriteRequest)
    requires
        writes.update_outcome(request) == Err::<(), WriteError>(WriteError::InconsistentUpdate),
    ensures
        writes.updates.contains_key(request.document_id),
        match (
            writes.updates[request.document_id].new_document,
            request.document_update.old_document,
        ) {
            (Some(last), Some(replaced)) => {
                ||| last.id != replaced.id
                ||| last.creation_time != replaced.creation_time
                ||| last.value.fields@.len() != replaced.value.fields@.len()
                ||| exists|i: int|
                    0 <= i < last.value.fields@.len() && ((#[trigger] last.value.fields@[i]).0@
                        != replaced.value.fields@[i].0@ || last.value.fields@[i].1.bytes@
                        != replaced.value.fields@[i].1.bytes@)
            },
            (None, None) => false,
            _ => true,
        },
{
    match (
        writes.updates[request.document_id].new_document,
        request.document_update.old_document,
    ) {
        (Some(last), Some(replaced)) => law_documents_are_equal_by_fields(last, replaced),
        _ => {},
    }
}

/// A write is carried out exactly if nothing stands against it: if it replaces
/// no document, the transaction has neither written its document nor allocated
/// its id; its tablet's id has a stored form, or its table is `_tables` or
/// `_index`; with it the writes of its kind and their bytes are within the
/// limits; and if its document was written before, what was last written is
/// what it replaces. What it leaves does not matter.
pub proof fn law_carried_out_exactly(writes: WriteSet, request: WriteRequest)
    ensures
        writes.update_outcome(request) is Ok <==> {
            let id = request.document_id;
            let update = request.document_update;
            let limits = request.limits;
            let bytes = request.id_encoding.size + match update.new_document {
                Some(document) => document.value.size as int,
                None => 0,
            };
            &&& update.old_document is None ==> !writes.updates.contains_key(id)
                && !writes.generated_ids.contains(id)
            &&& request.id_encoding.table_id_value is Ok || id.0 == request.tables.tables_id
                || id.0 == request.tables.index_id
            &&& if request.is_system_document {
                &&& writes.system_size.num_writes + 1 <= limits.max_system_num_writes
                &&& writes.system_size.size + bytes <= limits.max_system_write_size_bytes
            } else {
                &&& writes.user_size.num_writes + 1 <= limits.max_num_user_writes
                &&& writes.user_size.size + bytes <= limits.max_user_write_size_bytes
            }
            &&& writes.updates.contains_key(id) ==> match (
                writes.updates[id].new_document,
                update.old_document,
            ) {
                (Some(last), Some(replaced)) => {
                    &&& last.id == replaced.id
                    &&& last.creation_time == replaced.creation_time
                    &&& last.value.fields@.len() == replaced.value.fields@.len()
                    &&& forall|i: int|
                        0 <= i < last.value.fields@.len() ==> (
                        #[trigger] last.value.fields@[i]).0@ == replaced.value.fields@[i].0@
                            && last.value.fields@[i].1.bytes@ == replaced.value.fields@[i].1.bytes@
                },
                (None, None) => true,
                _ => false,
            }
        },
{
    let id = request.document_id;
    if writes.updates.contains_key(id) {
        match (writes.updates[id].new_document, request.document_update.old_document) {
            (Some(last), Some(replaced)) => law_documents_are_equal_by_fields(last, replaced),
            _ => {},
        }
    }
}

/// A write that is counted makes the writes of its kind one more, and their
/// bytes more by the size of its id and the size of the document that it
/// leaves, whatever document it replaces. It leaves the sizes of the other
/// kind alone. A write that is not counted leaves all sizes alone.
pub proof fn law_sizes_grow_exactly(writes: WriteSet, request: WriteRequest)
    ensures
        ({
            let id = request.document_id;
            let update = request.document_update;
            let counted = {
                &&& update.old_document is None ==> !writes.updates.contains_key(id)
                    && !writes.generated_ids.contains(id)
                &&& request.id_encoding.table_id_value is Ok || id.0 == request.tables.tables_id
                    || id.0 == request.tables.index_id
            };
            let bytes = request.id_encoding.size + match update.new_document {
                Some(document) => document.value.size as int,
                None => 0,
            };
            let after = writes.after_update(request);
            let user = counted && !request.is_system_document;
            let system = counted && request.is_system_document;
            &&& after.user_size.num_writes == writes.user_size.num_writes + if user {
                1int
            } else {
                0
            }
            &&& after.user_size.size == writes.user_size.size + if user {
                bytes
            } else {
                0
            }
            &&& after.system_size.num_writes == writes.system_size.num_writes + if system {
                1int
            } else {
                0
            }
            &&& after.system_size.size == writes.system_size.size + if system {
                bytes
            } else {
                0
            }
        }),
{
}

/// Two writes that are counted, and differ at most in the documents that they
/// replace, add the same to the sizes.
pub proof fn law_replaced_document_is_not_counted(
    writes: WriteSet,
    first: WriteRequest,
    second: WriteRequest,
)
    requires
        second == (WriteRequest { document_update: second.document_update, ..first }),
        second.document_update.new_document == first.document_update.new_document,
        first.document_update.old_document is Some,
        second.document_update.old_document is Some,
    ensures
        writes.after_update(first).user_size == writes.after_update(second).user_size,
        writes.after_update(first).system_size == writes.after_update(second).system_size,
{
}

/// The sizes have room for a write exactly if the write is not counted, or the
/// number of writes of its kind and their bytes, with it, fit a `usize`.
pub proof fn law_room_exactly(writes: WriteSet, request: WriteRequest)
    ensures
        writes.has_room_for(request) <==> {
            let id = request.document_id;
            let update = request.document_update;
            let before = if request.is_system_document {
                writes.system_size
            } else {
                writes.user_size
            };
            let bytes = request.id_encoding.size + match update.new_document {
                Some(document) => document.value.size as int,
                None => 0,
            };
            ||| update.old_document is None && (writes.updates.contains_key(id)
                || writes.generated_ids.contains(id))
            ||| request.id_encoding.table_id_value is Err && id.0 != request.tables.tables_id
                && id.0 != request.tables.index_id
            ||| before.num_writes + 1 <= usize::MAX && before.size + bytes <= usize::MAX
        },
{
}

/// A write marks its own table as written to exactly if it is counted, and no
/// other table.
pub proof fn law_written_tables_exactly(
    writes: WriteSet,
    request: WriteRequest,
    table: TabletIdAndTableNumber,
)
    ensures
        writes.after_update(request).written_tables.contains(table) <==> {
            let id = request.document_id;
            ||| writes.written_tables.contains(table)
            ||| {
                &&& table == id.0
                &&& request.document_update.old_document is None ==> !writes.updates.contains_key(
                    id,
                ) && !writes.generated_ids.contains(id)
                &&& request.id_encoding.table_id_value is Ok || id.0 == request.tables.tables_id
                    || id.0 == request.tables.index_id
            }
        },
{
}

/// A write allocates its own id exactly if it replaces no document and its
/// document was not written, and no other id.
pub proof fn law_generated_ids_exactly(
    writes: WriteSet,
    request: WriteRequest,
    id: ResolvedDocumentId,
)
    ensures
        writes.after_update(request).generated_ids.contains(id) <==> {
            ||| writes.generated_ids.contains(id)
            ||| id == request.document_id && request.document_update.old_document is None
                && !writes.updates.contains_key(id)
        },
{
}

/// A write that is carried out gives its document a change that leaves what
/// the write leaves, and that starts where the document's earlier change
/// starts, if it has one, or else where the write starts. A refused write
/// gives it none. All other documents keep their changes.
pub proof fn law_changes_exactly(
    writes: WriteSet,
    request: WriteRequest,
    id: ResolvedDocumentId,
)
    ensures
        ({
            let before = writes.updates;
            let after = writes.after_update(request).updates;
            let update = request.document_update;
            let written = id == request.document_id && writes.update_outcome(request) is Ok;
            &&& after.contains_key(id) <==> before.contains_key(id) || written
            &&& !written && before.contains_key(id) ==> after[id] == before[id]
            &&& written ==> after[id].new_document == update.new_document
            &&& written && before.contains_key(id) ==> after[id].old_document
                == before[id].old_document && after[id].id == before[id].id
            &&& written && !before.contains_key(id) ==> after[id].old_document
                == update.old_document && after[id].id == update.id
        }),
{
}

/// What a write does rests on its own document and on the sizes of its kind
/// alone: two write sets that agree on these treat it alike, whatever other
/// documents, ids and tables they hold.
pub proof fn law_other_documents_do_not_matter(a: WriteSet, b: WriteSet, request: WriteRequest)
    requires
        a.updates.contains_key(request.document_id) == b.updates.contains_key(
            request.document_id,
        ),
        a.updates.contains_key(request.document_id) ==> a.updates[request.document_id]
            == b.updates[request.document_id],
        a.generated_ids.contains(request.document_id) == b.generated_ids.contains(
            request.document_id,
        ),
        request.is_system_document ==> a.system_size == b.system_size,
        !request.is_system_document ==> a.user_size == b.user_size,
    ensures
        a.update_outcome(request) == b.update_outcome(request),
        a.update_reads(request) == b.update_reads(request),
        a.has_room_for(request) == b.has_room_for(request),
        a.update_outcome(request) is Ok ==> a.after_update(request).updates[request.document_id]
            == b.after_update(request).updates[request.document_id],
{
}

/// An insertion of a document that the transaction has neither written nor
/// allocated is no duplicate, in any table and whatever else was written:
/// not even after another document was written.
pub proof fn law_new_documents_can_be_inserted(
    writes: WriteSet,
    other: WriteRequest,
    request: WriteRequest,
)
    requires
        request.document_update.old_document is None,
        !writes.updates.contains_key(request.document_id),
        !writes.generated_ids.contains(request.document_id),
        other.document_id != request.document_id,
    ensures
        writes.insert_outcome(request) is Ok,
        writes.after_update(other).insert_outcome(request) is Ok,
        writes.after_update(request).generated_ids.contains(request.document_id),
        writes.after_update(other).after_update(request).generated_ids.contains(
            request.document_id,
        ),
{
}

/// Writes to different documents that are carried out in either order lead to
/// the same write set in both.
pub proof fn law_writes_to_different_documents_commute(
    writes: WriteSet,
    first: WriteRequest,
    second: WriteRequest,
)
    requires
        first.document_id != second.document_id,
        writes.update_outcome(first) is Ok,
        writes.update_outcome(second) is Ok,
        writes.after_update(first).update_outcome(second) is Ok,
        writes.after_update(second).update_outcome(first) is Ok,
    ensures
        writes.after_update(first).after_update(second) == writes.after_update(
            second,
        ).after_update(first),
{
    let a = writes.after_update(first).after_update(second);
    let b = writes.after_update(second).after_update(first);
    assert(a.updates =~= b.updates);
    assert(a.generated_ids =~= b.generated_ids);
    assert(a.written_tables =~= b.written_tables);
}

/// A document that exists can be changed and then deleted: if the transaction
/// has written it last as what the deletion replaces, and the limits allow,
/// the deletion is carried out, and the change leaves nothing.
pub proof fn law_written_documents_can_be_deleted(writes: WriteSet, request: WriteRequest)
    requires
        writes.updates.contains_key(request.document_id),
        request.document_update.old_document is Some,
        writes.updates[request.document_id].new_document == request.document_update.old_document,
        request.document_update.new_document is None,
        request.id_encoding.table_id_value is Ok,
        if request.is_system_document {
            &&& writes.system_size.num_writes < request.limits.max_system_num_writes
            &&& writes.system_size.size + request.id_encoding.size
                <= request.limits.max_system_write_size_bytes
        } else {
            &&& writes.user_size.num_writes < request.limits.max_num_user_writes
            &&& writes.user_size.size + request.id_encoding.size
                <= request.limits.max_user_write_size_bytes
        },
    ensures
        writes.update_outcome(request) is Ok,
        writes.after_update(request).updates[request.document_id].new_document is None,
        writes.after_update(request).updates[request.document_id].old_document
            == writes.updates[request.document_id].old_document,
{
}

/// An id can be allocated exactly if it was not, whatever else the transaction
/// did. Allocating it adds that id, and changes nothing else.
pub proof fn law_register_exactly(
    writes: WriteSet,
    document_id: ResolvedDocumentId,
    id: ResolvedDocumentId,
)
    ensures
        writes.register_outcome(document_id) == if writes.generated_ids.contains(document_id) {
            Err::<(), WriteError>(WriteError::DuplicateId { document_id })
        } else {
            Ok::<(), WriteError>(())
        },
        writes.after_register(document_id).generated_ids.contains(id) <==> id == document_id
            || writes.generated_ids.contains(id),
        writes.after_register(document_id).updates == writes.updates,
        writes.after_register(document_id).user_size == writes.user_size,
        writes.after_register(document_id).system_size == writes.system_size,
        writes.after_register(document_id).written_tables == writes.written_tables,
{
}

/// Allocating an id makes the transaction conflict with a change to the
/// document of that id, and with no other change. If the id was allocated
/// before, there is no new conflict.
pub proof fn law_register_conflicts_exactly(
    writes: WriteSet,
    document_id: ResolvedDocumentId,
    document: ResolvedDocument,
)
    ensures
        conflicts(writes.register_reads(document_id), document) <==> document.id == document_id
            && !writes.generated_ids.contains(document_id),
        writes.register_reads(document_id).len() == if writes.generated_ids.contains(document_id) {
            0nat
        } else {
            1nat
        },
{
    let reads = writes.register_reads(document_id);
    law_document_read_sees_the_document(document_id, document);
    if !writes.generated_ids.contains(document_id) {
        assert(reads[0] == document_read(document_id));
        if document.id == document_id {
            assert(reads[0].covers(document));
        }
    }
}

/// What conflicts with a write to a table, and when its reads can be recorded:
/// if the table is `_tables` or `_index`, any change to either, and always. If
/// not, a change to the document of `_tables` with the tablet's id, or to a
/// document of `_index` whose `table_id` has the stored form of that id, and
/// exactly if there is such a form.
pub proof fn law_table_conflicts_exactly(
    tables: BootstrapTableIds,
    table: TabletIdAndTableNumber,
    table_id_value: Result<ConvexValue, String>,
    document: ResolvedDocument,
)
    ensures
        conflicts(table_reads(tables, table, table_id_value), document) <==> if table
            == tables.tables_id || table == tables.index_id {
            document.id.0.0 == tables.tables_id.0 || document.id.0.0 == tables.index_id.0
        } else {
            ||| document.id == (tables.tables_id, table.0)
            ||| {
                &&& document.id.0.0 == tables.index_id.0
                &&& table_id_value matches Ok(value)
                &&& lookup(document.value@, "table_id"@) == Some(value.bytes@)
            }
        },
        table_reads_outcome(tables, table, table_id_value) == match table_id_value {
            Err(reason) => if table == tables.tables_id || table == tables.index_id {
                Ok::<(), WriteError>(())
            } else {
                Err::<(), WriteError>(WriteError::TabletIdNotSerialized { reason })
            },
            Ok(_) => Ok::<(), WriteError>(()),
        },
{
    let reads = table_reads(tables, table, table_id_value);
    if table == tables.tables_id || table == tables.index_id {
        assert(reads[0] == whole_table_read(tables.tables_id.0));
        assert(reads[1] == whole_table_read(tables.index_id.0));
    } else {
        law_document_read_sees_the_document((tables.tables_id, table.0), document);
        assert(reads[0] == document_read((tables.tables_id, table.0)));
        match table_id_value {
            Ok(value) => {
                law_indexes_read_sees_the_indexes(tables, value@, document);
                assert(reads[1] == indexes_read(tables, value@));
            },
            Err(_) => {},
        }
    }
}

/// Through which indexes the reads of a write to a table go: for `_tables` and
/// `_index`, all of both tables by id. Else the tablet's document of `_tables`
/// by id, then the documents of `_index` by table id.
pub proof fn law_table_reads_name_their_indexes(
    tables: BootstrapTableIds,
    table: TabletIdAndTableNumber,
    table_id_value: Result<ConvexValue, String>,
)
    ensures
        ({
            let reads = table_reads(tables, table, table_id_value);
            let metadata = table == tables.tables_id || table == tables.index_id;
            &&& reads.len() == if metadata || table_id_value is Ok {
                2nat
            } else {
                1nat
            }
            &&& reads[0].table == tables.tables_id.0
            &&& reads[0].descriptor == "by_id"@
            &&& reads[0].fields == Seq::<Seq<char>>::empty()
            &&& reads[0].interval == if metadata {
                IntervalView::All
            } else {
                IntervalView::Prefix(seq![KeyPartView::Id((tables.tables_id.1, table.0))])
            }
            &&& reads.len() == 2 ==> reads[1].table == tables.index_id.0
            &&& metadata ==> reads[1].descriptor == "by_id"@ && reads[1].fields == Seq::<
                Seq<char>,
            >::empty() && reads[1].interval == IntervalView::All
            &&& !metadata && table_id_value is Ok ==> reads[1].descriptor == "by_table_id"@
                && reads[1].fields == seq!["table_id"@] && reads[1].interval
                == IntervalView::Prefix(
                seq![KeyPartView::Value(Some(table_id_value->Ok_0.bytes@))],
            )
        }),
{
}

/// The read for an allocated id goes through the index by id of its table, and
/// covers the keys that begin with that id.
pub proof fn law_register_reads_name_their_index(writes: WriteSet, document_id: ResolvedDocumentId)
    requires
        !writes.generated_ids.contains(document_id),
    ensures
        writes.register_reads(document_id) == seq![
            IndexReadView {
                table: document_id.0.0,
                descriptor: "by_id"@,
                fields: Seq::empty(),
                interval: IntervalView::Prefix(
                    seq![KeyPartView::Id((document_id.0.1, document_id.1))],
                ),
            },
        ],
{
}

/// The reads of a write are those of allocating its id, if it replaces no
/// document, and then those of a write to its table. A repeated insertion
/// reads nothing.
pub proof fn law_update_reads_exactly(writes: WriteSet, request: WriteRequest)
    ensures
        ({
            let id = request.document_id;
            let insert = request.document_update.old_document is None;
            let repeated = insert && (writes.updates.contains_key(id)
                || writes.generated_ids.contains(id));
            let of_table = table_reads(
                request.tables,
                id.0,
                request.id_encoding.table_id_value,
            );
            writes.update_reads(request) == if repeated {
                Seq::<IndexReadView>::empty()
            } else if insert {
                writes.register_reads(id) + of_table
            } else {
                of_table
            }
        }),
{
    let of_table = table_reads(
        request.tables,
        request.document_id.0,
        request.id_encoding.table_id_value,
    );
    assert(Seq::<IndexReadView>::empty() + of_table =~= of_table);
}

/// What conflicts with a transaction for a write of its own: a change to the
/// very document, if the write replaces none; a change to the description of
/// its tablet, or of an index of its tablet, or to any description, if the
/// document is a description itself. A repeated insertion adds no conflict.
pub proof fn law_update_conflicts_exactly(
    writes: WriteSet,
    request: WriteRequest,
    document: ResolvedDocument,
)
    ensures
        conflicts(writes.update_reads(request), document) <==> {
            let id = request.document_id;
            let tables = request.tables;
            let insert = request.document_update.old_document is None;
            &&& !(insert && (writes.updates.contains_key(id) || writes.generated_ids.contains(id)))
            &&& {
                ||| insert && document.id == id
                ||| if id.0 == tables.tables_id || id.0 == tables.index_id {
                    document.id.0.0 == tables.tables_id.0 || document.id.0.0 == tables.index_id.0
                } else {
                    ||| document.id == (tables.tables_id, id.0.0)
                    ||| {
                        &&& document.id.0.0 == tables.index_id.0
                        &&& request.id_encoding.table_id_value matches Ok(value)
                        &&& lookup(document.value@, "table_id"@) == Some(value.bytes@)
                    }
                }
            }
        },
{
    let id = request.document_id;
    let of_table = table_reads(request.tables, id.0, request.id_encoding.table_id_value);
    law_update_reads_exactly(writes, request);
    law_register_conflicts_exactly(writes, id, document);
    law_table_conflicts_exactly(
        request.tables,
        id.0,
        request.id_encoding.table_id_value,
        document,
    );
    law_conflicts_persist(writes.register_reads(id), of_table, document);
}

/// The size of a document is that of its contents.
pub proof fn law_document_size_exactly(document: ResolvedDocument)
    ensures
        document_size(Some(document)) == document.value.size,
        document_size(None) == 0,
{
}

/// If a write is carried out, and then another to the same document, the
/// second replaces what the first left: both are absent, or they have the same
/// id, the same creation time, and for every name the same value.
pub proof fn law_next_write_replaces_what_was_left(
    writes: WriteSet,
    first: WriteRequest,
    second: WriteRequest,
    name: Seq<char>,
)
    requires
        second.document_id == first.document_id,
        writes.update_outcome(first) is Ok,
        writes.after_update(first).update_outcome(second) is Ok,
    ensures
        match (first.document_update.new_document, second.document_update.old_document) {
            (Some(left), Some(replaced)) => {
                &&& left.id == replaced.id
                &&& left.creation_time == replaced.creation_time
                &&& lookup(left.value@, name) == lookup(replaced.value@, name)
                &&& left.value.fields@.len() == replaced.value.fields@.len()
                &&& forall|j: int|
                    0 <= j < left.value.fields@.len() ==> (#[trigger] left.value.fields@[j]).0@
                        == replaced.value.fields@[j].0@ && left.value.fields@[j].1.bytes@
                        == replaced.value.fields@[j].1.bytes@
            },
            (None, None) => true,
            _ => false,
        },
{
    law_carried_out_exactly(writes.after_update(first), second);
    match (first.document_update.new_document, second.document_update.old_document) {
        (Some(left), Some(replaced)) => law_objects_are_equal_by_fields(
            left.value,
            replaced.value,
        ),
        _ => {},
    }
}

/// When operations are made in turn, the last one meets what those before it
/// lead to, and adds its reads to theirs. No operations change nothing.
pub proof fn law_operations_are_made_in_turn(
    writes: WriteSet,
    operations: Seq<Operation>,
    request: WriteRequest,
    document_id: ResolvedDocumentId,
)
    ensures
        ({
            let before = writes.after_all(operations);
            let reads = writes.reads_of_all(operations);
            let with_update = operations.push(Operation::Update(request));
            let with_register = operations.push(Operation::Register(document_id));
            let none = Seq::<Operation>::empty();
            &&& writes.after_all(none) == writes
            &&& writes.reads_of_all(none) == Seq::<IndexReadView>::empty()
            &&& writes.after_all(with_update) == before.after_update(request)
            &&& writes.after_all(with_register) == before.after_register(document_id)
            &&& writes.reads_of_all(with_update) == reads + before.update_reads(request)
            &&& writes.reads_of_all(with_register) == reads + before.register_reads(document_id)
            &&& writes.writes_at(with_update, operations.len() as int, document_id) <==> {
                &&& request.document_id == document_id
                &&& before.update_outcome(request) is Ok
            }
        }),
{
    let with_update = operations.push(Operation::Update(request));
    let with_register = operations.push(Operation::Register(document_id));
    assert(with_update.drop_last() =~= operations);
    assert(with_register.drop_last() =~= operations);
    assert(with_update.take(operations.len() as int) =~= operations);
}

/// A new write set holds no change, no id, no table and no write.
pub proof fn law_empty_holds_nothing(id: ResolvedDocumentId, table: TabletIdAndTableNumber)
    ensures
        !WriteSet::empty().updates.contains_key(id),
        !WriteSet::empty().generated_ids.contains(id),
        !WriteSet::empty().written_tables.contains(table),
        WriteSet::empty().user_size.num_writes == 0,
        WriteSet::empty().user_size.size == 0,
        WriteSet::empty().system_size.num_writes == 0,
        WriteSet::empty().system_size.size == 0,
{
}

/// The view of a size shows its two numbers.
pub proof fn law_size_shows_its_numbers(size: TransactionWriteSize)
    ensures
        size@.num_writes == size.num_writes,
        size@.size == size.size,
{
}

/// A listing of changes has one entry for each document with a change, with
/// that change, and each entry comes before those of later tablets, of later
/// table numbers in the same tablet, and of later ids in the same table.
pub proof fn law_listing_exactly(
    list: Seq<(ResolvedDocumentId, DocumentUpdate)>,
    updates: Map<ResolvedDocumentId, DocumentUpdate>,
    id: ResolvedDocumentId,
)
    requires
        lists_updates(list, updates),
    ensures
        updates.contains_key(id) <==> exists|i: int|
            0 <= i < list.len() && (#[trigger] list[i]).0 == id && list[i].1 == updates[id],
        forall|i: int, j: int|
            0 <= i < j < list.len() ==> {
                let ((a_tablet, a_number), a_internal) = (#[trigger] list[i]).0;
                let ((b_tablet, b_number), b_internal) = (#[trigger] list[j]).0;
                &&& a_tablet <= b_tablet
                &&& a_tablet == b_tablet ==> a_number <= b_number
                &&& a_tablet == b_tablet && a_number == b_number ==> a_internal < b_internal
            },
{
    if updates.contains_key(id) {
        assert(list.contains((id, updates[id])));
        let i = list.index_of((id, updates[id]));
        assert(list[i] == (id, updates[id]));
    }
    assert forall|i: int| 0 <= i < list.len() && (#[trigger] list[i]).0 == id implies
        updates.contains_key(id) by {
        assert(updates.contains_key(list[i].0));
    }
    assert forall|i: int, j: int| 0 <= i < j < list.len() implies {
        let ((a_tablet, a_number), a_internal) = (#[trigger] list[i]).0;
        let ((b_tablet, b_number), b_internal) = (#[trigger] list[j]).0;
        &&& a_tablet <= b_tablet
        &&& a_tablet == b_tablet ==> a_number <= b_number
        &&& a_tablet == b_tablet && a_number == b_number ==> a_internal < b_internal
    } by {
        assert(id_precedes(list[i].0, list[j].0));
    }
}

/// The name that developers have for a document holds its table's number and
/// its own id.
pub proof fn law_developer_id_exactly(id: ResolvedDocumentId)
    ensures
        developer_id_of(id).0 == id.0.1,
        developer_id_of(id).1 == id.1,
{
}

/// A read sees a document exactly if the document is in the tablet that was
/// read, and each part of the interval's prefix fits it: a part at the place
/// of an indexed field is what the document has under that field's name, or
/// nothing if it has nothing there, and a part behind these is the document's
/// id.
pub proof fn law_read_covers_exactly(read: IndexRead, document: ResolvedDocument)
    ensures
        read@.covers(document) <==> {
            let fields = read.fields.fields@;
            &&& read.index_name.table == document.id.0.0
            &&& match read.interval {
                Interval::All => true,
                Interval::Prefix(parts) => forall|i: int|
                    0 <= i < parts@.len() ==> match #[trigger] parts@[i] {
                        KeyPart::Value(Some(value)) => i < fields.len() && lookup(
                            document.value@,
                            fields[i]@,
                        ) == Some(value.bytes@),
                        KeyPart::Value(None) => i < fields.len() && lookup(
                            document.value@,
                            fields[i]@,
                        ) is None,
                        KeyPart::Id(id) => i == fields.len() && id.0 == document.id.0.1 && id.1
                            == document.id.1,
                    },
            }
        },
{
    let fields = read.fields.fields@;
    let key = index_key(document, read.fields@);
    assert(read.fields@.len() == fields.len());
    assert(key.len() == fields.len() + 1);
    assert forall|i: int| 0 <= i < fields.len() implies #[trigger] key[i] == KeyPartView::Value(
        lookup(document.value@, fields[i]@),
    ) by {
        assert(read.fields@[i] == fields[i]@);
    }
    match read.interval {
        Interval::All => {},
        Interval::Prefix(parts) => {
            let prefix = parts@.map_values(|part: KeyPart| part@);
            if prefix.is_prefix_of(key) {
                assert forall|i: int| 0 <= i < parts@.len() implies match #[trigger] parts@[i] {
                    KeyPart::Value(Some(value)) => i < fields.len() && lookup(
                        document.value@,
                        fields[i]@,
                    ) == Some(value.bytes@),
                    KeyPart::Value(None) => i < fields.len() && lookup(
                        document.value@,
                        fields[i]@,
                    ) is None,
                    KeyPart::Id(id) => i == fields.len() && id.0 == document.id.0.1 && id.1
                        == document.id.1,
                } by {
                    assert(prefix[i] == parts@[i]@);
                    assert(prefix[i] == key[i]);
                }
            }
            if forall|i: int|
                0 <= i < parts@.len() ==> match #[trigger] parts@[i] {
                    KeyPart::Value(Some(value)) => i < fields.len() && lookup(
                        document.value@,
                        fields[i]@,
                    ) == Some(value.bytes@),
                    KeyPart::Value(None) => i < fields.len() && lookup(
                        document.value@,
                        fields[i]@,
                    ) is None,
                    KeyPart::Id(id) => i == fields.len() && id.0 == document.id.0.1 && id.1
                        == document.id.1,
                } {
                if parts@.len() > key.len() {
                    assert(parts@[key.len() as int] is Value || parts@[key.len() as int] is Id);
                    assert(false);
                }
                assert forall|i: int| 0 <= i < prefix.len() implies prefix[i] == key[i] by {
                    assert(prefix[i] == parts@[i]@);
                }
                assert(prefix =~= key.subrange(0, prefix.len() as int));
            }
        },
    }
}

/// A set of reads conflicts with a change to a document exactly if one of its
/// reads sees the document: none does in the set without reads, and one more
/// read adds just what it sees.
pub proof fn law_conflicts_exactly(
    reads: Seq<IndexReadView>,
    read: IndexReadView,
    document: ResolvedDocument,
)
    ensures
        !conflicts(Seq::<IndexReadView>::empty(), document),
        conflicts(reads.push(read), document) <==> conflicts(reads, document) || read.covers(
            document,
        ),
{
    let longer = reads.push(read);
    if conflicts(reads, document) {
        let i = choose|i: int| 0 <= i < reads.len() && (#[trigger] reads[i]).covers(document);
        assert(longer[i] == reads[i]);
        assert(longer[i].covers(document));
    }
    if read.covers(document) {
        assert(longer[reads.len() as int].covers(document));
    }
    if conflicts(longer, document) {
        let i = choose|i: int| 0 <= i < longer.len() && (#[trigger] longer[i]).covers(document);
        if i < reads.len() {
            assert(reads[i].covers(document));
        }
    }
}

/// The view of a read set shows each read in its place: the index that was
/// read, the fields of that index, and the interval, part by part.
pub proof fn law_read_set_shows_its_reads(set: TransactionReadSet, i: int)
    requires
        0 <= i < set.reads@.len(),
    ensures
        set@.len() == set.reads@.len(),
        ({
            let read = set.reads@[i];
            let shown = set@[i];
            &&& shown.table == read.index_name.table
            &&& shown.descriptor == read.index_name.descriptor@
            &&& shown.fields.len() == read.fields.fields@.len()
            &&& forall|j: int|
                0 <= j < read.fields.fields@.len() ==> #[trigger] shown.fields[j]
                    == read.fields.fields@[j]@
            &&& match (shown.interval, read.interval) {
                (IntervalView::All, Interval::All) => true,
                (IntervalView::Prefix(shown_parts), Interval::Prefix(parts)) => {
                    &&& shown_parts.len() == parts@.len()
                    &&& forall|j: int|
                        0 <= j < parts@.len() ==> match (
                            #[trigger] shown_parts[j],
                            parts@[j],
                        ) {
                            (KeyPartView::Value(Some(shown_bytes)), KeyPart::Value(Some(value))) =>
                            shown_bytes == value.bytes@,
                            (KeyPartView::Value(None), KeyPart::Value(None)) => true,
                            (KeyPartView::Id(shown_id), KeyPart::Id(id)) => shown_id == id,
                            _ => false,
                        }
                },
                _ => false,
            }
        }),
{
}

/// The number that a text of decimal digits denotes.
pub open spec fn number_of(text: Seq<char>) -> nat
    decreases text.len(),
{
    if text.len() == 0 {
        0
    } else {
        number_of(text.drop_last()) * 10 + match text.last() {
            '0' => 0nat,
            '1' => 1nat,
            '2' => 2nat,
            '3' => 3nat,
            '4' => 4nat,
            '5' => 5nat,
            '6' => 6nat,
            '7' => 7nat,
            '8' => 8nat,
            _ => 9nat,
        }
    }
}

/// A number in decimal notation denotes that number, is made of digits, and
/// has no leading zero, unless it is zero.
pub proof fn law_decimal_denotes_the_number(n: nat)
    ensures
        number_of(decimal(n)) == n,
        decimal(n).len() > 0,
        forall|i: int| 0 <= i < decimal(n).len() ==> '0' <= #[trigger] decimal(n)[i] <= '9',
        decimal(n)[0] == '0' ==> decimal(n).len() == 1,
        n > 0 ==> decimal(n)[0] != '0',
    decreases n,
{
    let text = decimal(n);
    if n < 10 {
        assert(text.drop_last() =~= Seq::<char>::empty());
        assert(number_of(text.drop_last()) == 0);
    } else {
        law_decimal_denotes_the_number(n / 10);
        assert(text.drop_last() =~= decimal(n / 10));
        assert(n == (n / 10) * 10 + n % 10);
        assert forall|i: int| 0 <= i < text.len() implies '0' <= #[trigger] text[i] <= '9' by {
            if i < text.len() - 1 {
                assert(text[i] == decimal(n / 10)[i]);
            }
        }
    }
}

/// What the text of each error says: what went wrong, and of a limit or a
/// number of writes or bytes, the very number in decimal notation. Only a
/// reused id is named.
pub proof fn law_errors_say_what_went_wrong(
    name: Seq<char>,
    document_id: ResolvedDocumentId,
    reason: String,
    n: usize,
)
    ensures
        WriteError::DuplicateInsert.text(name) == "Duplicate insert"@,
        (WriteError::DuplicateId { document_id }).text(name)
            == "Transaction allocated the same DocumentId twice: "@ + name,
        (WriteError::TabletIdNotSerialized { reason }).text(name) == reason@,
        (WriteError::TooManySystemWrites { num_writes: n }).text(name)
            == "Too many system document writes in a single transaction: "@ + decimal(n as nat),
        (WriteError::TooManySystemBytes { size: n }).text(name)
            == "Too many bytes written in system tables in a single transaction: "@ + decimal(
            n as nat,
        ),
        (WriteError::TooManyWrites { limit: n }).text(name)
            == "Too many writes in a single function execution (limit: "@ + decimal(n as nat)
            + ")"@,
        (WriteError::TooManyBytesWritten { limit: n }).text(name)
            == "Too many bytes written in a single function execution (limit: "@ + decimal(
            n as nat,
        ) + " bytes)"@,
        WriteError::InconsistentUpdate.text(name)
            == "Inconsistent update: The old update's new document does not match the new document's old update"@,
{
}

/// An error has a code exactly if a write exceeds a limit for user tables, and
/// the code tells which.
pub proof fn law_only_user_limits_have_codes(error: WriteError)
    ensures
        error.pagination_limit_code() == Some("TooManyWrites"@) <==> error is TooManyWrites,
        error.pagination_limit_code() == Some("TooManyBytesWritten"@) <==> error
            is TooManyBytesWritten,
        error.pagination_limit_code() is Some <==> error is TooManyWrites || error
            is TooManyBytesWritten,
{
    reveal_strlit("TooManyWrites");
    reveal_strlit("TooManyBytesWritten");
    assert("TooManyWrites"@.len() != "TooManyBytesWritten"@.len());
}

} // verus!
