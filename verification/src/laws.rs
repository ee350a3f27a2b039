//! What holds of writes and of the reads that they entail.

use crate::document::{
    has_ordered_names, lookup, name_precedes, same_document, ConvexObject, ConvexValue,
    DocumentUpdate, ResolvedDocument,
};
use crate::error::WriteError;
use crate::ids::{
    developer_id_of, id_precedes, BootstrapTableIds, ResolvedDocumentId, TabletId,
    TabletIdAndTableNumber,
};
use crate::model::{
    describes_tablet, document_read, indexes_read, lists_updates, table_reads, whole_table_read,
    Operation, WriteRequest, WriteSet, WriteSize,
};
use crate::reads::{conflicts, index_key, IndexReadView, KeyPartView};
use vstd::prelude::*;

verus! {

/// A write set without writes is well formed.
pub proof fn law_empty_is_well_formed()
    ensures
        WriteSet::empty().well_formed(),
{
}

/// A write, be it carried out or refused, keeps the write set well formed.
pub proof fn law_update_keeps_well_formed(writes: WriteSet, request: WriteRequest)
    requires
        writes.well_formed(),
    ensures
        writes.after_update(request).well_formed(),
{
    let after = writes.after_update(request);
    let id = request.document_id;
    if writes.update_outcome(request) is Ok {
        assert(after.updates.dom() =~= writes.updates.dom().insert(id));
    }
}

/// Allocating an id keeps the write set well formed.
pub proof fn law_register_keeps_well_formed(writes: WriteSet, document_id: ResolvedDocumentId)
    requires
        writes.well_formed(),
    ensures
        writes.after_register(document_id).well_formed(),
{
}

/// Whatever is asked of a write set that was empty, it is well formed.
pub proof fn law_always_well_formed(operations: Seq<Operation>)
    ensures
        WriteSet::empty().after_all(operations).well_formed(),
    decreases operations.len(),
{
    if operations.len() > 0 {
        let earlier = WriteSet::empty().after_all(operations.drop_last());
        law_always_well_formed(operations.drop_last());
        match operations.last() {
            Operation::Update(request) => law_update_keeps_well_formed(earlier, request),
            Operation::Register(id) => law_register_keeps_well_formed(earlier, id),
        }
    }
}

/// As long as no write that was counted is refused, the tables written to are
/// those of the documents that were written, whatever ids are allocated
/// between the writes.
pub proof fn law_updates_tell_tables(operations: Seq<Operation>, table: TabletIdAndTableNumber)
    requires
        forall|i: int| #[trigger]
            WriteSet::empty().counts_at(operations, i) ==> WriteSet::empty().writes_at(
                operations,
                i,
                operations[i]->Update_0.document_id,
            ),
    ensures
        WriteSet::empty().after_all(operations).written_tables.contains(table) <==> exists|
            id: ResolvedDocumentId,
        |
            id.0 == table && #[trigger] WriteSet::empty().after_all(
                operations,
            ).updates.contains_key(id),
    decreases operations.len(),
{
    if operations.len() > 0 {
        let empty = WriteSet::empty();
        let earlier = operations.drop_last();
        let n = operations.len() - 1;
        let before = empty.after_all(earlier);
        let after = empty.after_all(operations);
        assert(operations.take(n) =~= earlier);
        assert forall|i: int| #[trigger] empty.counts_at(earlier, i) implies empty.writes_at(
            earlier,
            i,
            earlier[i]->Update_0.document_id,
        ) by {
            assert(earlier.take(i) =~= operations.take(i));
            assert(empty.counts_at(operations, i));
        }
        law_updates_tell_tables(earlier, table);
        if empty.counts_at(operations, n) {
            let id = operations[n]->Update_0.document_id;
            assert(empty.writes_at(operations, n, id));
            assert(after.updates.contains_key(id));
        }
        if before.written_tables.contains(table) {
            let id = choose|id: ResolvedDocumentId|
                id.0 == table && #[trigger] before.updates.contains_key(id);
            assert(after.updates.contains_key(id));
        }
        if after.written_tables.contains(table) && !before.written_tables.contains(table) {
            assert(empty.counts_at(operations, n));
        }
    }
}

/// As long as no write is refused, the allocated ids are those of the
/// documents that were inserted, and those that were registered.
pub proof fn law_updates_tell_ids(operations: Seq<Operation>, id: ResolvedDocumentId)
    requires
        forall|i: int|
            0 <= i < operations.len() ==> (#[trigger] operations[i] matches Operation::Update(
                request,
            ) ==> WriteSet::empty().writes_at(operations, i, request.document_id)),
    ensures
        ({
            let after = WriteSet::empty().after_all(operations);
            after.generated_ids.contains(id) <==> {
                ||| after.updates.contains_key(id) && after.updates[id].old_document is None
                ||| operations.contains(Operation::Register(id))
            }
        }),
    decreases operations.len(),
{
    if operations.len() > 0 {
        let earlier = operations.drop_last();
        let n = operations.len() - 1;
        assert(operations.take(n) =~= earlier);
        assert forall|i: int| 0 <= i < earlier.len() implies (#[trigger] earlier[i] matches
            Operation::Update(request) ==> WriteSet::empty().writes_at(
            earlier,
            i,
            request.document_id,
        )) by {
            assert(operations[i] == earlier[i]);
            assert(earlier.take(i) =~= operations.take(i));
        }
        law_updates_tell_ids(earlier, id);
        assert(operations =~= earlier.push(operations[n]));
        if earlier.contains(Operation::Register(id)) {
            let i = earlier.index_of(Operation::Register(id));
            assert(operations[i] == Operation::Register(id));
        }
        if operations.contains(Operation::Register(id)) && operations[n] != Operation::Register(id) {
            let i = operations.index_of(Operation::Register(id));
            assert(earlier[i] == Operation::Register(id));
        }
    }
}

/// As long as documents are written, and no write is refused, the changes to
/// documents tell which ids were allocated and which tables were written to.
pub proof fn law_updates_tell_ids_and_tables(operations: Seq<Operation>)
    requires
        forall|i: int|
            0 <= i < operations.len() ==> (#[trigger] operations[i] matches Operation::Update(
                request,
            ) && WriteSet::empty().writes_at(operations, i, request.document_id)),
    ensures
        WriteSet::empty().after_all(operations).is_told_by_updates(),
{
    let after = WriteSet::empty().after_all(operations);
    assert forall|i: int| #[trigger]
        WriteSet::empty().counts_at(operations, i) implies WriteSet::empty().writes_at(
        operations,
        i,
        operations[i]->Update_0.document_id,
    ) by {
        assert(operations[i] is Update);
    }
    assert forall|id: ResolvedDocumentId| #[trigger]
        after.generated_ids.contains(id) <==> after.updates.contains_key(id)
            && after.updates[id].old_document is None by {
        law_updates_tell_ids(operations, id);
        if operations.contains(Operation::Register(id)) {
            let i = operations.index_of(Operation::Register(id));
            assert(operations[i] is Update);
        }
    }
    assert forall|table: TabletIdAndTableNumber| #[trigger]
        after.written_tables.contains(table) implies exists|id: ResolvedDocumentId|
        id.0 == table && #[trigger] after.updates.contains_key(id) by {
        law_updates_tell_tables(operations, table);
    }
    assert forall|id: ResolvedDocumentId| #[trigger]
        after.updates.contains_key(id) implies after.written_tables.contains(id.0) by {
        law_updates_tell_tables(operations, id.0);
    }
}

/// A refused write changes no document.
pub proof fn law_refused_update_changes_no_document(writes: WriteSet, request: WriteRequest)
    requires
        writes.update_outcome(request) is Err,
    ensures
        writes.after_update(request).updates == writes.updates,
{
}

/// An insertion that is refused because the document was already written, or
/// its id already allocated, has no effect at all.
pub proof fn law_refused_insert_has_no_effect(writes: WriteSet, request: WriteRequest)
    requires
        writes.insert_outcome(request) is Err,
    ensures
        writes.update_outcome(request) == writes.insert_outcome(request),
        writes.after_update(request) == writes,
        writes.update_reads(request) == Seq::<IndexReadView>::empty(),
{
}

/// A write that is carried out makes the write set hold a change to its
/// document, and makes it tell that its table was written to.
pub proof fn law_update_is_seen(writes: WriteSet, request: WriteRequest)
    requires
        writes.update_outcome(request) is Ok,
    ensures
        writes.after_update(request).updates.contains_key(request.document_id),
        writes.after_update(request).written_tables.contains(request.table()),
{
}

/// A write leaves the changes to all other documents as they are.
pub proof fn law_update_leaves_other_documents(
    writes: WriteSet,
    request: WriteRequest,
    id: ResolvedDocumentId,
)
    requires
        id != request.document_id,
    ensures
        writes.after_update(request).updates.contains_key(id)
            == writes.updates.contains_key(id),
        writes.updates.contains_key(id) ==> writes.after_update(request).updates[id]
            == writes.updates[id],
{
}

/// Two writes to one document are combined: the change goes from what the
/// first found to what the second leaves.
pub proof fn law_updates_are_combined(writes: WriteSet, first: WriteRequest, second: WriteRequest)
    requires
        first.document_id == second.document_id,
        !writes.updates.contains_key(first.document_id),
        writes.update_outcome(first) is Ok,
        writes.after_update(first).update_outcome(second) is Ok,
    ensures
        writes.after_update(first).after_update(second).updates == writes.updates.insert(
            first.document_id,
            DocumentUpdate {
                id: first.document_update.id,
                old_document: first.document_update.old_document,
                new_document: second.document_update.new_document,
            },
        ),
{
    let last = writes.after_update(first).after_update(second);
    assert(last.updates =~= writes.updates.insert(
        first.document_id,
        DocumentUpdate {
            id: first.document_update.id,
            old_document: first.document_update.old_document,
            new_document: second.document_update.new_document,
        },
    ));
}

/// The sizes tell whether a limit was exceeded: after a write that is carried
/// out they are within the limits, and after one that is refused for a limit
/// they exceed it.
pub proof fn law_sizes_tell_limit_exceeded(writes: WriteSet, request: WriteRequest)
    ensures
        ({
            let limits = request.limits;
            let user = writes.after_update(request).user_size;
            let system = writes.after_update(request).system_size;
            match writes.update_outcome(request) {
                Ok(()) => if request.is_system_document {
                    &&& system.num_writes <= limits.max_system_num_writes
                    &&& system.size <= limits.max_system_write_size_bytes
                } else {
                    &&& user.num_writes <= limits.max_num_user_writes
                    &&& user.size <= limits.max_user_write_size_bytes
                },
                Err(WriteError::TooManySystemWrites { .. }) => system.num_writes
                    > limits.max_system_num_writes,
                Err(WriteError::TooManySystemBytes { .. }) => system.size
                    > limits.max_system_write_size_bytes,
                Err(WriteError::TooManyWrites { .. }) => user.num_writes
                    > limits.max_num_user_writes,
                Err(WriteError::TooManyBytesWritten { .. }) => user.size
                    > limits.max_user_write_size_bytes,
                Err(_) => true,
            }
        }),
{
}

/// Once a limit is exceeded, every further write under that limit is refused.
pub proof fn law_limit_stays_exceeded(writes: WriteSet, request: WriteRequest)
    requires
        ({
            let limits = request.limits;
            if request.is_system_document {
                ||| writes.system_size.num_writes > limits.max_system_num_writes
                ||| writes.system_size.size > limits.max_system_write_size_bytes
            } else {
                ||| writes.user_size.num_writes > limits.max_num_user_writes
                ||| writes.user_size.size > limits.max_user_write_size_bytes
            }
        }),
    ensures
        writes.update_outcome(request) is Err,
{
}

/// Writes to system documents do not count as writes to user documents, nor
/// the other way round.
pub proof fn law_user_and_system_sizes_are_separate(writes: WriteSet, request: WriteRequest)
    ensures
        writes.after_update(request).size(!request.is_system_document) == writes.size(
            !request.is_system_document,
        ),
{
}

/// Writing to the same document twice counts twice.
pub proof fn law_writing_twice_counts_twice(
    writes: WriteSet,
    first: WriteRequest,
    second: WriteRequest,
)
    requires
        first.document_id == second.document_id,
        first.is_system_document == second.is_system_document,
        writes.update_outcome(first) is Ok,
        writes.after_update(first).update_outcome(second) is Ok,
    ensures
        ({
            let before = writes.size(first.is_system_document);
            let after = writes.after_update(first).after_update(second).size(
                first.is_system_document,
            );
            &&& after.num_writes == before.num_writes + 2
            &&& after.size == before.size + first.bytes() + second.bytes()
        }),
{
}

/// The number and the bytes of those of `operations` that count as writes to
/// system documents, or to user documents, when each is made in turn.
pub open spec fn counted(writes: WriteSet, operations: Seq<Operation>, is_system: bool) -> WriteSize
    decreases operations.len(),
{
    if operations.len() == 0 {
        WriteSize::zero()
    } else {
        let earlier = counted(writes, operations.drop_last(), is_system);
        match operations.last() {
            Operation::Update(request) if request.is_system_document == is_system
                && writes.counts_at(operations, operations.len() - 1) =>
            earlier.add_write(request.bytes()),
            _ => earlier,
        }
    }
}

/// The sizes are the totals of all writes that were counted, be they carried
/// out or refused afterwards.
pub proof fn law_sizes_are_totals(writes: WriteSet, operations: Seq<Operation>, is_system: bool)
    ensures
        ({
            let before = writes.size(is_system);
            let after = writes.after_all(operations).size(is_system);
            let total = counted(writes, operations, is_system);
            &&& after.num_writes == before.num_writes + total.num_writes
            &&& after.size == before.size + total.size
        }),
    decreases operations.len(),
{
    if operations.len() > 0 {
        law_sizes_are_totals(writes, operations.drop_last(), is_system);
        assert(operations.take(operations.len() - 1) =~= operations.drop_last());
    }
}

/// Writes forget nothing: whatever documents, ids and tables a write set
/// holds, it holds after any further writes.
pub proof fn law_nothing_is_forgotten(writes: WriteSet, operations: Seq<Operation>)
    ensures
        ({
            let after = writes.after_all(operations);
            &&& writes.updates.dom().subset_of(after.updates.dom())
            &&& writes.generated_ids.subset_of(after.generated_ids)
            &&& writes.written_tables.subset_of(after.written_tables)
        }),
    decreases operations.len(),
{
    if operations.len() > 0 {
        law_nothing_is_forgotten(writes, operations.drop_last());
    }
}

/// Does `operation` allocate `document_id`?
pub open spec fn allocates(
    writes: WriteSet,
    operation: Operation,
    document_id: ResolvedDocumentId,
) -> bool {
    match operation {
        Operation::Update(request) => request.document_id == document_id && writes.registers(
            request,
        ),
        Operation::Register(id) => id == document_id && writes.register_outcome(id) is Ok,
    }
}

/// A document id is allocated at most once: once it is allocated, it can
/// neither be allocated nor inserted again, whatever is asked between.
pub proof fn law_id_is_allocated_once(
    writes: WriteSet,
    document_id: ResolvedDocumentId,
    first: Operation,
    between: Seq<Operation>,
    second: WriteRequest,
)
    requires
        allocates(writes, first, document_id),
        second.is_insert(),
        second.document_id == document_id,
    ensures
        ({
            let later = writes.after(first).after_all(between);
            &&& later.register_outcome(document_id) == Err::<(), WriteError>(
                WriteError::DuplicateId { document_id },
            )
            &&& later.update_outcome(second) == if later.updates.contains_key(document_id) {
                Err::<(), WriteError>(WriteError::DuplicateInsert)
            } else {
                Err::<(), WriteError>(WriteError::DuplicateId { document_id })
            }
        }),
{
    law_nothing_is_forgotten(writes.after(first), between);
}

/// A document that the transaction has written, even one that it has deleted
/// since, cannot be inserted.
pub proof fn law_written_document_cannot_be_inserted(
    writes: WriteSet,
    first: WriteRequest,
    between: Seq<Operation>,
    second: WriteRequest,
)
    requires
        writes.update_outcome(first) is Ok,
        second.is_insert(),
        second.document_id == first.document_id,
    ensures
        writes.after_update(first).after_all(between).update_outcome(second)
            == Err::<(), WriteError>(WriteError::DuplicateInsert),
{
    law_nothing_is_forgotten(writes.after_update(first), between);
}

/// When each of `operations` is made in turn, are those at `first` and `last`
/// the first and the last that write `id`, and is `update` the change from
/// what the first found to what the last leaves?
pub open spec fn is_change_of(
    writes: WriteSet,
    operations: Seq<Operation>,
    id: ResolvedDocumentId,
    first: int,
    last: int,
    update: DocumentUpdate,
) -> bool {
    &&& first <= last
    &&& writes.writes_at(operations, first, id)
    &&& writes.writes_at(operations, last, id)
    &&& forall|i: int| #[trigger]
        writes.writes_at(operations, i, id) ==> first <= i <= last
    &&& update.id == operations[first]->Update_0.document_update.id
    &&& update.old_document == operations[first]->Update_0.document_update.old_document
    &&& update.new_document == operations[last]->Update_0.document_update.new_document
}

/// Each request does what it would do if no others followed.
proof fn lemma_writes_at_prefix(
    writes: WriteSet,
    operations: Seq<Operation>,
    id: ResolvedDocumentId,
)
    requires
        operations.len() > 0,
    ensures
        forall|i: int|
            i < operations.len() - 1 ==> (#[trigger] writes.writes_at(operations, i, id)
                <==> writes.writes_at(operations.drop_last(), i, id)),
        operations.take(operations.len() - 1) == operations.drop_last(),
{
    assert(operations.take(operations.len() - 1) =~= operations.drop_last());
    assert forall|i: int| i < operations.len() - 1 implies (#[trigger] writes.writes_at(
        operations,
        i,
        id,
    ) <==> writes.writes_at(operations.drop_last(), i, id)) by {
        if 0 <= i {
            assert(operations.drop_last().take(i) =~= operations.take(i));
        }
    }
}

/// All writes to a document are coalesced into one change: a document that a
/// series of operations wrote has the change from what its first write found to
/// what its last write leaves, and a document that none of them wrote has none.
pub proof fn law_writes_are_coalesced(
    writes: WriteSet,
    operations: Seq<Operation>,
    id: ResolvedDocumentId,
)
    requires
        !writes.updates.contains_key(id),
    ensures
        ({
            let updates = writes.after_all(operations).updates;
            if updates.contains_key(id) {
                exists|first: int, last: int| #[trigger]
                    is_change_of(writes, operations, id, first, last, updates[id])
            } else {
                forall|i: int| !(#[trigger] writes.writes_at(operations, i, id))
            }
        }),
    decreases operations.len(),
{
    if operations.len() > 0 {
        let earlier = operations.drop_last();
        let n = operations.len() - 1;
        let before = writes.after_all(earlier).updates;
        let updates = writes.after_all(operations).updates;
        law_writes_are_coalesced(writes, earlier, id);
        lemma_writes_at_prefix(writes, operations, id);
        if writes.writes_at(operations, n, id) {
            let first = if before.contains_key(id) {
                let (first, last) = choose|first: int, last: int| #[trigger]
                    is_change_of(writes, earlier, id, first, last, before[id]);
                assert(writes.writes_at(operations, first, id));
                first
            } else {
                n
            };
            assert forall|i: int| #[trigger]
                writes.writes_at(operations, i, id) implies first <= i <= n by {
                if i < n {
                    assert(writes.writes_at(earlier, i, id));
                }
            }
            assert(is_change_of(writes, operations, id, first, n, updates[id]));
        } else if before.contains_key(id) {
            let (first, last) = choose|first: int, last: int| #[trigger]
                is_change_of(writes, earlier, id, first, last, before[id]);
            assert(writes.writes_at(operations, first, id));
            assert(writes.writes_at(operations, last, id));
            assert forall|i: int| #[trigger]
                writes.writes_at(operations, i, id) implies first <= i <= last by {
                assert(writes.writes_at(earlier, i, id));
            }
            assert(is_change_of(writes, operations, id, first, last, updates[id]));
        } else {
            assert forall|i: int| !(#[trigger] writes.writes_at(operations, i, id)) by {
                if i < n {
                    assert(!writes.writes_at(earlier, i, id));
                }
            }
        }
    }
}

/// If each request names the document that it changes, each coalesced change
/// names its document too.
pub proof fn law_changes_name_their_documents(operations: Seq<Operation>, id: ResolvedDocumentId)
    requires
        forall|i: int|
            0 <= i < operations.len() ==> (#[trigger] operations[i] matches Operation::Update(
                request,
            ) ==> request.document_update.id == request.document_id),
        WriteSet::empty().after_all(operations).updates.contains_key(id),
    ensures
        WriteSet::empty().after_all(operations).updates[id].id == id,
{
    let updates = WriteSet::empty().after_all(operations).updates;
    law_writes_are_coalesced(WriteSet::empty(), operations, id);
    let (first, last) = choose|first: int, last: int| #[trigger]
        is_change_of(WriteSet::empty(), operations, id, first, last, updates[id]);
    assert(operations[first] is Update);
}

/// Between two operations that write `id`, the first of which is at `i`, the
/// change to the document keeps leaving what that one left.
proof fn lemma_change_is_kept(
    writes: WriteSet,
    operations: Seq<Operation>,
    id: ResolvedDocumentId,
    i: int,
    k: int,
)
    requires
        i < k <= operations.len(),
        writes.writes_at(operations, i, id),
        forall|j: int| i < j < k ==> !(#[trigger] writes.writes_at(operations, j, id)),
    ensures
        ({
            let updates = writes.after_all(operations.take(k)).updates;
            &&& updates.contains_key(id)
            &&& updates[id].new_document == operations[i]->Update_0.document_update.new_document
        }),
    decreases k,
{
    let earlier = operations.take(k - 1);
    assert(operations.take(k).drop_last() =~= earlier);
    assert(operations.take(k).last() == operations[k - 1]);
    if i < k - 1 {
        lemma_change_is_kept(writes, operations, id, i, k - 1);
        assert(!writes.writes_at(operations, k - 1, id));
    }
}

/// Each write to a document starts from what the write before it left.
pub proof fn law_consecutive_writes_join(
    writes: WriteSet,
    operations: Seq<Operation>,
    id: ResolvedDocumentId,
    i: int,
    k: int,
)
    requires
        i < k,
        writes.writes_at(operations, i, id),
        writes.writes_at(operations, k, id),
        forall|j: int| i < j < k ==> !(#[trigger] writes.writes_at(operations, j, id)),
    ensures
        same_document(
            operations[i]->Update_0.document_update.new_document,
            operations[k]->Update_0.document_update.old_document,
        ),
{
    lemma_change_is_kept(writes, operations, id, i, k);
}

/// A recorded read stays recorded: what conflicts with a transaction keeps
/// conflicting with it, whatever is read further.
pub proof fn law_conflicts_persist(
    reads: Seq<IndexReadView>,
    more: Seq<IndexReadView>,
    document: ResolvedDocument,
)
    ensures
        conflicts(reads + more, document) == (conflicts(reads, document) || conflicts(
            more,
            document,
        )),
{
    let all = reads + more;
    if conflicts(reads, document) {
        let i = choose|i: int| 0 <= i < reads.len() && (#[trigger] reads[i]).covers(document);
        assert(all[i].covers(document));
    }
    if conflicts(more, document) {
        let i = choose|i: int| 0 <= i < more.len() && (#[trigger] more[i]).covers(document);
        assert(all[reads.len() + i].covers(document));
    }
    if conflicts(all, document) {
        let i = choose|i: int| 0 <= i < all.len() && (#[trigger] all[i]).covers(document);
        if i < reads.len() {
            assert(reads[i].covers(document));
        } else {
            assert(more[i - reads.len()].covers(document));
        }
    }
}

/// The read of a document sees that document and no other.
pub proof fn law_document_read_sees_the_document(id: ResolvedDocumentId, document: ResolvedDocument)
    ensures
        document_read(id).covers(document) <==> document.id == id,
{
    let key = index_key(document, Seq::empty());
    let prefix = seq![KeyPartView::Id(developer_id_of(id))];
    assert(key =~= seq![KeyPartView::Id(developer_id_of(document.id))]);
    assert(prefix.is_prefix_of(key) <==> prefix[0] == key[0]) by {
        assert(key.subrange(0, 1) =~= key);
        if prefix[0] == key[0] {
            assert(prefix =~= key);
        }
    }
}

/// The read of the indexes of a table sees the documents of `_index` that
/// hold the table's id, and no others.
pub proof fn law_indexes_read_sees_the_indexes(
    tables: BootstrapTableIds,
    table_id_value: Seq<u8>,
    document: ResolvedDocument,
)
    ensures
        indexes_read(tables, table_id_value).covers(document) <==> {
            &&& document.id.0.0 == tables.index_id.0
            &&& lookup(document.value@, "table_id"@) == Some(table_id_value)
        },
{
    let fields = seq!["table_id"@];
    let key = index_key(document, fields);
    let prefix = seq![KeyPartView::Value(Some(table_id_value))];
    assert(key.len() == 2);
    assert(key[0] == KeyPartView::Value(lookup(document.value@, fields[0])));
    assert(prefix.is_prefix_of(key) <==> prefix[0] == key[0]) by {
        if prefix[0] == key[0] {
            assert(prefix =~= key.subrange(0, 1));
        }
    }
}

/// A write to a table conflicts with a change to the document that describes
/// the table, or to one that describes an index of the same table, and with
/// no other change: not with one to the description of another table or of
/// an index of another table.
pub proof fn law_table_write_conflicts(
    tables: BootstrapTableIds,
    table: TabletIdAndTableNumber,
    value: ConvexValue,
    document: ResolvedDocument,
)
    requires
        !tables.describes_tables(table),
    ensures
        conflicts(table_reads(tables, table, Ok(value)), document) <==> {
            ||| document.id == (tables.tables_id, table.0)
            ||| document.id.0.0 == tables.index_id.0 && lookup(document.value@, "table_id"@)
                == Some(value@)
        },
{
    let reads = table_reads(tables, table, Ok(value));
    law_document_read_sees_the_document((tables.tables_id, table.0), document);
    law_indexes_read_sees_the_indexes(tables, value@, document);
    assert(reads[0] == document_read((tables.tables_id, table.0)));
    assert(reads[1] == indexes_read(tables, value@));
}

/// A write to a table conflicts with a change to a document exactly if the
/// document describes the table's tablet, or an index of it.
pub proof fn law_table_write_conflicts_with_description(
    tables: BootstrapTableIds,
    table: TabletIdAndTableNumber,
    stored_form: spec_fn(TabletId) -> Seq<u8>,
    value: ConvexValue,
    document: ResolvedDocument,
)
    requires
        !tables.describes_tables(table),
        value@ == stored_form(table.0),
    ensures
        conflicts(table_reads(tables, table, Ok(value)), document) <==> describes_tablet(
            tables,
            stored_form,
            document,
            table.0,
        ),
{
    law_table_write_conflicts(tables, table, value, document);
}

/// A write to a table conflicts with a change to the description of tablet
/// `x`, or of an index of it, exactly if `x` is the tablet of that table. The
/// two tables of descriptions have to be distinct, and index metadata has to
/// tell the two tablets apart.
pub proof fn law_table_write_conflicts_with_own_tablet(
    tables: BootstrapTableIds,
    table: TabletIdAndTableNumber,
    stored_form: spec_fn(TabletId) -> Seq<u8>,
    value: ConvexValue,
    x: TabletId,
    document: ResolvedDocument,
)
    requires
        !tables.describes_tables(table),
        value@ == stored_form(table.0),
        describes_tablet(tables, stored_form, document, x),
        tables.tables_id.0 != tables.index_id.0,
        document.id.0.0 == tables.index_id.0 && stored_form(x) == stored_form(table.0) ==> x
            == table.0,
    ensures
        conflicts(table_reads(tables, table, Ok(value)), document) <==> x == table.0,
{
    law_table_write_conflicts_with_description(tables, table, stored_form, value, document);
}

/// A write to the description of a table or of an index conflicts with a
/// change to any description of a table or of an index, and with no other.
pub proof fn law_metadata_write_conflicts(
    tables: BootstrapTableIds,
    table: TabletIdAndTableNumber,
    table_id_value: Result<ConvexValue, String>,
    document: ResolvedDocument,
)
    requires
        tables.describes_tables(table),
    ensures
        conflicts(table_reads(tables, table, table_id_value), document) <==> {
            ||| document.id.0.0 == tables.tables_id.0
            ||| document.id.0.0 == tables.index_id.0
        },
{
    let reads = table_reads(tables, table, table_id_value);
    assert(reads[0] == whole_table_read(tables.tables_id.0));
    assert(reads[1] == whole_table_read(tables.index_id.0));
}

/// A write makes the transaction conflict with whatever a write to its table
/// conflicts with. If it allocates the id of its document, it also makes the
/// transaction conflict with any change to the document of that id, so that
/// no parallel commit can create it. There are no other conflicts.
pub proof fn law_update_conflicts(
    writes: WriteSet,
    request: WriteRequest,
    document: ResolvedDocument,
)
    requires
        writes.insert_outcome(request) is Ok,
    ensures
        conflicts(writes.update_reads(request), document) <==> {
            ||| request.is_insert() && document.id == request.document_id
            ||| conflicts(request.table_reads(), document)
        },
{
    let id = request.document_id;
    let id_reads = if writes.registers(request) {
        seq![document_read(id)]
    } else {
        Seq::empty()
    };
    law_document_read_sees_the_document(id, document);
    law_conflicts_persist(id_reads, request.table_reads(), document);
    if writes.registers(request) {
        assert(id_reads[0] == document_read(id));
    }
}

/// A write that was counted keeps the transaction in conflict with whatever a
/// write to its table conflicts with, whatever is asked before and after.
pub proof fn law_counted_writes_stay_protected(
    writes: WriteSet,
    operations: Seq<Operation>,
    i: int,
    document: ResolvedDocument,
)
    requires
        writes.counts_at(operations, i),
        conflicts(operations[i]->Update_0.table_reads(), document),
    ensures
        conflicts(writes.reads_of_all(operations), document),
    decreases operations.len(),
{
    let earlier = operations.drop_last();
    let before = writes.after_all(earlier);
    let last_reads = match operations.last() {
        Operation::Update(request) => before.update_reads(request),
        Operation::Register(document_id) => before.register_reads(document_id),
    };
    law_conflicts_persist(writes.reads_of_all(earlier), last_reads, document);
    if i < operations.len() - 1 {
        assert(earlier.take(i) =~= operations.take(i));
        law_counted_writes_stay_protected(writes, earlier, i, document);
    } else {
        assert(operations.take(i) =~= earlier);
        law_update_conflicts(before, operations.last()->Update_0, document);
    }
}

/// A transaction conflicts with any change to a document whose id it has
/// allocated, so that no parallel commit can create that document.
pub proof fn law_allocated_ids_stay_protected(
    writes: WriteSet,
    operations: Seq<Operation>,
    document: ResolvedDocument,
)
    requires
        !writes.generated_ids.contains(document.id),
        writes.after_all(operations).generated_ids.contains(document.id),
    ensures
        conflicts(writes.reads_of_all(operations), document),
    decreases operations.len(),
{
    let earlier = operations.drop_last();
    let before = writes.after_all(earlier);
    let last_reads = match operations.last() {
        Operation::Update(request) => before.update_reads(request),
        Operation::Register(document_id) => before.register_reads(document_id),
    };
    law_conflicts_persist(writes.reads_of_all(earlier), last_reads, document);
    if before.generated_ids.contains(document.id) {
        law_allocated_ids_stay_protected(writes, earlier, document);
    } else {
        match operations.last() {
            Operation::Update(request) => law_update_conflicts(before, request, document),
            Operation::Register(document_id) => {
                law_document_read_sees_the_document(document_id, document);
                assert(last_reads[0] == document_read(document_id));
            },
        }
    }
}

/// The bytes of a key whose parts are stored as `code` gives them.
pub open spec fn key_bytes(
    key: Seq<KeyPartView>,
    code: spec_fn(KeyPartView) -> Seq<u8>,
) -> Seq<u8>
    decreases key.len(),
{
    if key.len() == 0 {
        Seq::empty()
    } else {
        code(key[0]) + key_bytes(key.drop_first(), code)
    }
}

/// Does `code` store each part as some bytes that are not the beginning of
/// those of another part?
pub open spec fn is_prefix_free(code: spec_fn(KeyPartView) -> Seq<u8>) -> bool {
    &&& forall|a: KeyPartView| (#[trigger] code(a)).len() > 0
    &&& forall|a: KeyPartView, b: KeyPartView| #[trigger]
        code(a).is_prefix_of(code(b)) ==> a == b
}

/// If no part is stored as the beginning of another, a key's bytes begin with
/// those of a prefix exactly if the key begins with the parts of that prefix.
pub proof fn law_keys_compare_as_their_bytes(
    prefix: Seq<KeyPartView>,
    key: Seq<KeyPartView>,
    code: spec_fn(KeyPartView) -> Seq<u8>,
)
    requires
        is_prefix_free(code),
    ensures
        prefix.is_prefix_of(key) <==> key_bytes(prefix, code).is_prefix_of(key_bytes(key, code)),
    decreases prefix.len(),
{
    let p = key_bytes(prefix, code);
    let k = key_bytes(key, code);
    if prefix.len() == 0 {
        assert(prefix =~= key.subrange(0, 0));
        assert(p =~= k.subrange(0, 0));
    } else if key.len() == 0 {
        assert(code(prefix[0]).len() > 0);
    } else {
        let p0 = code(prefix[0]);
        let k0 = code(key[0]);
        let p_rest = key_bytes(prefix.drop_first(), code);
        let k_rest = key_bytes(key.drop_first(), code);
        law_keys_compare_as_their_bytes(prefix.drop_first(), key.drop_first(), code);
        if prefix.is_prefix_of(key) {
            assert(prefix[0] == key[0]);
            assert(prefix.drop_first() =~= key.drop_first().subrange(0, prefix.len() - 1));
            assert(p =~= k.subrange(0, p.len() as int));
        }
        if p.is_prefix_of(k) {
            assert(forall|i: int| 0 <= i < p.len() ==> p[i] == k[i]);
            if p0.len() <= k0.len() {
                assert forall|i: int| 0 <= i < p0.len() implies p0[i] == k0[i] by {
                    assert(p[i] == k[i]);
                }
                assert(p0 =~= k0.subrange(0, p0.len() as int));
                assert(p0.is_prefix_of(k0));
            } else {
                assert forall|i: int| 0 <= i < k0.len() implies p0[i] == k0[i] by {
                    assert(p[i] == k[i]);
                }
                assert(k0 =~= p0.subrange(0, k0.len() as int));
                assert(k0.is_prefix_of(p0));
            }
            assert(prefix[0] == key[0]);
            assert forall|i: int| 0 <= i < p_rest.len() implies p_rest[i] == k_rest[i] by {
                assert(p[p0.len() + i] == k[k0.len() + i]);
            }
            assert(p_rest =~= k_rest.subrange(0, p_rest.len() as int));
            assert forall|i: int| 0 <= i < prefix.len() implies prefix[i] == key[i] by {
                if i > 0 {
                    assert(prefix.drop_first()[i - 1] == key.drop_first()[i - 1]);
                }
            }
            assert(prefix =~= key.subrange(0, prefix.len() as int));
        }
    }
}

/// No two names precede each other.
proof fn lemma_name_order_is_strict(a: Seq<char>, b: Seq<char>)
    ensures
        name_precedes(a, b) ==> !name_precedes(b, a) && a != b,
    decreases a.len(),
{
    if a.len() > 0 && b.len() > 0 && a[0] == b[0] {
        lemma_name_order_is_strict(a.drop_first(), b.drop_first());
    }
}

/// Looking up a name finds the field that has it, if one has.
proof fn lemma_lookup_finds(fields: Seq<(Seq<char>, Seq<u8>)>, name: Seq<char>)
    ensures
        match lookup(fields, name) {
            Some(value) => exists|i: int|
                0 <= i < fields.len() && #[trigger] fields[i] == (name, value),
            None => forall|i: int| 0 <= i < fields.len() ==> (#[trigger] fields[i]).0 != name,
        },
    decreases fields.len(),
{
    if fields.len() > 0 && fields[0].0 != name {
        let rest = fields.drop_first();
        lemma_lookup_finds(rest, name);
        match lookup(rest, name) {
            Some(value) => {
                let i = choose|i: int|
                    0 <= i < rest.len() && #[trigger] rest[i] == (name, value);
                assert(fields[i + 1] == (name, value));
            },
            None => {
                assert forall|i: int| 0 <= i < fields.len() implies (#[trigger] fields[i]).0
                    != name by {
                    if i > 0 {
                        assert(rest[i - 1] == fields[i]);
                    }
                }
            },
        }
    }
}

/// Lists of fields in order that give every name the same value are the same.
proof fn lemma_ordered_fields_are_equal(
    a: Seq<(Seq<char>, Seq<u8>)>,
    b: Seq<(Seq<char>, Seq<u8>)>,
)
    requires
        has_ordered_names(a),
        has_ordered_names(b),
        forall|name: Seq<char>| #[trigger] lookup(a, name) == lookup(b, name),
    ensures
        a == b,
    decreases a.len(),
{
    if a.len() == 0 {
        if b.len() > 0 {
            assert(lookup(a, b[0].0) == lookup(b, b[0].0));
        }
        assert(a =~= b);
    } else {
        let name_a = a[0].0;
        assert(lookup(a, name_a) == lookup(b, name_a));
        lemma_lookup_finds(b, name_a);
        let j = choose|j: int| 0 <= j < b.len() && #[trigger] b[j] == (name_a, a[0].1);
        let name_b = b[0].0;
        assert(lookup(a, name_b) == lookup(b, name_b));
        lemma_lookup_finds(a, name_b);
        let i = choose|i: int| 0 <= i < a.len() && #[trigger] a[i] == (name_b, b[0].1);
        if name_a != name_b {
            assert(name_precedes(a[0].0, a[i].0));
            assert(name_precedes(b[0].0, b[j].0));
            lemma_name_order_is_strict(name_a, name_b);
        }
        assert(a[0] == b[0]);
        let rest_a = a.drop_first();
        let rest_b = b.drop_first();
        assert forall|name: Seq<char>| #[trigger] lookup(rest_a, name) == lookup(
            rest_b,
            name,
        ) by {
            if name == name_a {
                lemma_first_name_is_not_repeated(a);
                lemma_first_name_is_not_repeated(b);
            } else {
                assert(lookup(a, name) == lookup(b, name));
            }
        }
        assert forall|i: int, j: int| 0 <= i < j < rest_a.len() implies name_precedes(
            (#[trigger] rest_a[i]).0,
            (#[trigger] rest_a[j]).0,
        ) by {
            assert(name_precedes(a[i + 1].0, a[j + 1].0));
        }
        assert forall|i: int, j: int| 0 <= i < j < rest_b.len() implies name_precedes(
            (#[trigger] rest_b[i]).0,
            (#[trigger] rest_b[j]).0,
        ) by {
            assert(name_precedes(b[i + 1].0, b[j + 1].0));
        }
        lemma_ordered_fields_are_equal(rest_a, rest_b);
        assert(a =~= seq![a[0]] + rest_a);
        assert(b =~= seq![b[0]] + rest_b);
    }
}

/// In a list of fields in order, no later field has the name of the first.
proof fn lemma_first_name_is_not_repeated(fields: Seq<(Seq<char>, Seq<u8>)>)
    requires
        has_ordered_names(fields),
        fields.len() > 0,
    ensures
        lookup(fields.drop_first(), fields[0].0) is None,
{
    let rest = fields.drop_first();
    lemma_lookup_finds(rest, fields[0].0);
    if lookup(rest, fields[0].0) is Some {
        let value = lookup(rest, fields[0].0)->0;
        let i = choose|i: int| 0 <= i < rest.len() && #[trigger] rest[i] == (fields[0].0, value);
        assert(name_precedes(fields[0].0, fields[i + 1].0));
        lemma_name_order_is_strict(fields[0].0, fields[i + 1].0);
    }
}

/// Two objects whose fields are in order are equal exactly if they give every
/// name the same value.
pub proof fn law_objects_are_equal_by_lookup(a: ConvexObject, b: ConvexObject)
    requires
        a.well_formed(),
        b.well_formed(),
    ensures
        a@ == b@ <==> forall|name: Seq<char>| #[trigger] lookup(a@, name) == lookup(b@, name),
{
    if forall|name: Seq<char>| #[trigger] lookup(a@, name) == lookup(b@, name) {
        lemma_ordered_fields_are_equal(a@, b@);
    }
}

/// No document id appears twice in a listing of coalesced writes.
pub proof fn law_no_id_is_listed_twice(
    list: Seq<(ResolvedDocumentId, DocumentUpdate)>,
    updates: Map<ResolvedDocumentId, DocumentUpdate>,
    i: int,
    j: int,
)
    requires
        lists_updates(list, updates),
        0 <= i < list.len(),
        0 <= j < list.len(),
        i != j,
    ensures
        list[i].0 != list[j].0,
{
    if i < j {
        assert(id_precedes(list[i].0, list[j].0));
    } else {
        assert(id_precedes(list[j].0, list[i].0));
    }
}

/// A listing without its last entry lists the other entries.
proof fn lemma_listing_without_last(
    list: Seq<(ResolvedDocumentId, DocumentUpdate)>,
    updates: Map<ResolvedDocumentId, DocumentUpdate>,
)
    requires
        lists_updates(list, updates),
        list.len() > 0,
    ensures
        lists_updates(list.drop_last(), updates.remove(list.last().0)),
{
    let rest = list.drop_last();
    let others = updates.remove(list.last().0);
    assert forall|i: int| 0 <= i < rest.len() implies others.contains_key(#[trigger] rest[i].0)
        && others[rest[i].0] == rest[i].1 by {
        assert(rest[i] == list[i]);
        law_no_id_is_listed_twice(list, updates, i, list.len() - 1);
        assert(updates.contains_key(list[i].0));
    }
    assert forall|id: ResolvedDocumentId| #[trigger] others.contains_key(id) implies rest.contains(
        (id, others[id]),
    ) by {
        assert(updates.contains_key(id));
        let i = list.index_of((id, updates[id]));
        assert(list[i] == (id, updates[id]));
        assert(rest[i] == (id, others[id]));
    }
    assert forall|i: int, j: int| 0 <= i < j < rest.len() implies id_precedes(
        #[trigger] rest[i].0,
        #[trigger] rest[j].0,
    ) by {
        assert(id_precedes(list[i].0, list[j].0));
    }
}

/// Two listings of the same coalesced writes are the same.
pub proof fn law_listing_is_unique(
    a: Seq<(ResolvedDocumentId, DocumentUpdate)>,
    b: Seq<(ResolvedDocumentId, DocumentUpdate)>,
    updates: Map<ResolvedDocumentId, DocumentUpdate>,
)
    requires
        lists_updates(a, updates),
        lists_updates(b, updates),
    ensures
        a == b,
    decreases a.len(),
{
    if a.len() == 0 {
        if b.len() > 0 {
            assert(updates.contains_key(b[0].0));
            assert(a.contains((b[0].0, updates[b[0].0])));
        }
        assert(a =~= b);
    } else {
        let id_a = a.last().0;
        assert(updates.contains_key(a[a.len() - 1].0));
        assert(b.contains((id_a, updates[id_a])));
        let j = b.index_of((id_a, updates[id_a]));
        let id_b = b.last().0;
        assert(updates.contains_key(b[b.len() - 1].0));
        assert(a.contains((id_b, updates[id_b])));
        let i = a.index_of((id_b, updates[id_b]));
        if id_a != id_b {
            assert(id_precedes(b[j].0, b[b.len() - 1].0));
            assert(id_precedes(a[i].0, a[a.len() - 1].0));
            assert(false);
        }
        assert(a.last() == b.last());
        lemma_listing_without_last(a, updates);
        lemma_listing_without_last(b, updates);
        law_listing_is_unique(a.drop_last(), b.drop_last(), updates.remove(id_a));
        assert(a =~= a.drop_last().push(a.last()));
        assert(b =~= b.drop_last().push(b.last()));
    }
}

} // verus!
