//! The write set of a transaction.

use crate::document::{ConvexValue, DocumentUpdate};
use crate::error::WriteError;
use crate::ids::{
    developer_id, id_precedes, BootstrapTableIds, ResolvedDocumentId, TabletIdAndTableNumber,
};
use crate::laws::law_update_keeps_well_formed;
use crate::model::{
    lists_updates, table_reads, table_reads_outcome, DocumentIdEncoding, WriteLimits, WriteRequest,
    WriteSet, WriteSize,
};
use crate::reads::{IndexedFields, Interval, KeyPart, TabletIndexName, TransactionReadSet};
use std::collections::{BTreeMap, BTreeSet};
use vstd::prelude::*;

verus! {

/// The number of writes that a transaction made, and their size.
#[derive(Debug, PartialEq, Eq, Structural)]
pub struct TransactionWriteSize {
    /// Total number of writes.
    pub num_writes: usize,
    /// Total size of the writes. Writing to the same document twice counts twice.
    pub size: usize,
}

impl View for TransactionWriteSize {
    type V = WriteSize;

    open spec fn view(&self) -> WriteSize {
        WriteSize { num_writes: self.num_writes as nat, size: self.size as nat }
    }
}

impl Default for TransactionWriteSize {
    fn default() -> (result: Self)
        ensures
            result@ == WriteSize::zero(),
    {
        TransactionWriteSize { num_writes: 0, size: 0 }
    }
}

impl Clone for TransactionWriteSize {
    fn clone(&self) -> (result: Self)
        ensures
            result == *self,
    {
        TransactionWriteSize { num_writes: self.num_writes, size: self.size }
    }
}

/// The documents `ids`, each with its entry in `updates`.
spec fn with_updates(
    ids: Seq<ResolvedDocumentId>,
    updates: Map<ResolvedDocumentId, DocumentUpdate>,
) -> Seq<(ResolvedDocumentId, DocumentUpdate)> {
    ids.map_values(|id: ResolvedDocumentId| (id, updates[id]))
}

/// The write set of a transaction.
#[derive(Debug, PartialEq)]
pub struct Writes {
    updates: BTreeMap<ResolvedDocumentId, DocumentUpdate>,
    /// All of the new document ids that were generated in this transaction.
    pub generated_ids: BTreeSet<ResolvedDocumentId>,
    /// Size of writes to user tables.
    user_tx_size: TransactionWriteSize,
    /// Size of writes to system tables.
    system_tx_size: TransactionWriteSize,
    written_tables: BTreeSet<TabletIdAndTableNumber>,
}

impl View for Writes {
    type V = WriteSet;

    closed spec fn view(&self) -> WriteSet {
        WriteSet {
            updates: self.updates@,
            generated_ids: self.generated_ids@,
            user_size: self.user_tx_size@,
            system_size: self.system_tx_size@,
            written_tables: self.written_tables@,
        }
    }
}

/// The view of a write set shows each of its fields.
proof fn law_write_set_shows_its_fields(writes: Writes)
    ensures
        writes@.updates == writes.updates@,
        writes@.generated_ids == writes.generated_ids@,
        writes@.user_size.num_writes == writes.user_tx_size.num_writes,
        writes@.user_size.size == writes.user_tx_size.size,
        writes@.system_size.num_writes == writes.system_tx_size.num_writes,
        writes@.system_size.size == writes.system_tx_size.size,
        writes@.written_tables == writes.written_tables@,
{
}

impl Clone for Writes {
    fn clone(&self) -> (result: Self)
        ensures
            result@ == self@,
    {
        Writes {
            updates: self.updates.clone(),
            generated_ids: self.generated_ids.clone(),
            user_tx_size: self.user_tx_size.clone(),
            system_tx_size: self.system_tx_size.clone(),
            written_tables: self.written_tables.clone(),
        }
    }
}

impl Writes {
    /// Creates an empty write set.
    pub fn new() -> (result: Self)
        ensures
            result@ == WriteSet::empty(),
            result@.well_formed(),
    {
        Writes {
            updates: BTreeMap::new(),
            generated_ids: BTreeSet::new(),
            user_tx_size: TransactionWriteSize::default(),
            system_tx_size: TransactionWriteSize::default(),
            written_tables: BTreeSet::new(),
        }
    }

    /// Is the active transaction without any writes?
    pub fn is_empty(&self) -> (result: bool)
        ensures
            result == self@.updates.is_empty(),
    {
        self.updates.is_empty()
    }

    /// Did the transaction write to the table `table_id`?
    pub fn has_written_to(&self, table_id: &TabletIdAndTableNumber) -> (result: bool)
        ensures
            result == self@.written_tables.contains(*table_id),
    {
        self.written_tables.contains(table_id)
    }

    /// Do the numbers of writes and bytes still fit their counters after a
    /// call of `update` with these arguments? They do if that call is refused
    /// before it is counted.
    pub fn has_room_for(
        &self,
        bootstrap_tables: BootstrapTableIds,
        limits: &WriteLimits,
        is_system_document: bool,
        document_id: ResolvedDocumentId,
        id_encoding: &DocumentIdEncoding,
        document_update: &DocumentUpdate,
    ) -> (result: bool)
        ensures
            result == self@.has_room_for(
                (WriteRequest {
                    tables: bootstrap_tables,
                    limits: *limits,
                    is_system_document,
                    document_id,
                    id_encoding: *id_encoding,
                    document_update: *document_update,
                }),
            ),
    {
        let (table, _) = document_id;
        if document_update.old_document.is_none() && (self.updates.contains_key(&document_id)
            || self.generated_ids.contains(&document_id)) {
            return true;
        }
        if id_encoding.table_id_value.is_err() && !bootstrap_tables.is_index_table(table)
            && !bootstrap_tables.is_tables_table(table) {
            return true;
        }
        let value_size: usize = match &document_update.new_document {
            Some(document) => document.value().size(),
            None => 0,
        };
        let tx_size = if is_system_document {
            &self.system_tx_size
        } else {
            &self.user_tx_size
        };
        match id_encoding.size.checked_add(value_size) {
            Some(bytes) => tx_size.num_writes < usize::MAX && bytes <= usize::MAX - tx_size.size,
            None => false,
        }
    }

    /// Writes one document.
    ///
    /// The size of a write is counted even if the write is then refused for
    /// exceeding a limit, so that the sizes show that a limit was exceeded.
    pub fn update(
        &mut self,
        bootstrap_tables: BootstrapTableIds,
        limits: &WriteLimits,
        is_system_document: bool,
        reads: &mut TransactionReadSet,
        document_id: ResolvedDocumentId,
        id_encoding: DocumentIdEncoding,
        document_update: DocumentUpdate,
    ) -> (result: Result<(), WriteError>)
        requires
            old(self)@.has_room_for(
                (WriteRequest {
                    tables: bootstrap_tables,
                    limits: *limits,
                    is_system_document,
                    document_id,
                    id_encoding,
                    document_update,
                }),
            ),
        ensures
            ({
                let request = WriteRequest {
                    tables: bootstrap_tables,
                    limits: *limits,
                    is_system_document,
                    document_id,
                    id_encoding,
                    document_update,
                };
                &&& result == old(self)@.update_outcome(request)
                &&& final(self)@ == old(self)@.after_update(request)
                &&& final(reads)@ == old(reads)@ + old(self)@.update_reads(request)
            }),
            old(self)@.well_formed() ==> final(self)@.well_formed(),
    {
        let ghost request = WriteRequest {
            tables: bootstrap_tables,
            limits: *limits,
            is_system_document,
            document_id,
            id_encoding,
            document_update,
        };
        proof {
            if self@.well_formed() {
                law_update_keeps_well_formed(self@, request);
            }
        }
        if document_update.old_document.is_none() {
            if self.updates.contains_key(&document_id) {
                return Err(WriteError::DuplicateInsert);
            }
            match self.register_new_id(reads, document_id) {
                Ok(()) => {},
                Err(error) => {
                    return Err(error);
                },
            }
        }
        let (table, _) = document_id;
        let DocumentIdEncoding { size: id_size, table_id_value } = id_encoding;
        match Self::record_reads_for_write(bootstrap_tables, reads, table, table_id_value) {
            Ok(()) => {},
            Err(error) => {
                return Err(error);
            },
        }
        let value_size: usize = match &document_update.new_document {
            Some(document) => document.value().size(),
            None => 0,
        };
        self.written_tables.insert(table);

        // The size is counted first, so that it shows the write even if the
        // write is refused below.
        if is_system_document {
            self.system_tx_size.num_writes += 1;
            self.system_tx_size.size += id_size + value_size;
            // Developers have no control over system tables, so exceeding
            // their limits is the system's own error.
            let tx_size = &self.system_tx_size;
            if tx_size.num_writes > limits.max_system_num_writes {
                return Err(WriteError::TooManySystemWrites { num_writes: tx_size.num_writes });
            }
            if tx_size.size > limits.max_system_write_size_bytes {
                return Err(WriteError::TooManySystemBytes { size: tx_size.size });
            }
        } else {
            self.user_tx_size.num_writes += 1;
            self.user_tx_size.size += id_size + value_size;
            let tx_size = &self.user_tx_size;
            if tx_size.num_writes > limits.max_num_user_writes {
                return Err(WriteError::TooManyWrites { limit: limits.max_num_user_writes });
            }
            if tx_size.size > limits.max_user_write_size_bytes {
                return Err(
                    WriteError::TooManyBytesWritten { limit: limits.max_user_write_size_bytes },
                );
            }
        }

        match self.updates.get(&document_id) {
            Some(old_update) => {
                if old_update.new_document != document_update.old_document {
                    return Err(WriteError::InconsistentUpdate);
                }
            },
            None => {},
        }
        match self.updates.remove(&document_id) {
            Some(old_update) => {
                let coalesced = DocumentUpdate {
                    new_document: document_update.new_document,
                    ..old_update
                };
                self.updates.insert(document_id, coalesced);
            },
            None => {
                self.updates.insert(document_id, document_update);
            },
        }
        Ok(())
    }

    /// Records the reads on which a write to `table` depends. Index metadata
    /// holds the id of the table as `table_id_value`.
    pub fn record_reads_for_write(
        table_mapping: BootstrapTableIds,
        reads: &mut TransactionReadSet,
        table: TabletIdAndTableNumber,
        table_id_value: Result<ConvexValue, String>,
    ) -> (result: Result<(), WriteError>)
        ensures
            result == table_reads_outcome(table_mapping, table, table_id_value),
            final(reads)@ == old(reads)@ + table_reads(table_mapping, table, table_id_value),
    {
        let (tables_tablet, tables_number) = table_mapping.tables_id;
        let (index_tablet, _) = table_mapping.index_id;
        if table_mapping.is_index_table(table) || table_mapping.is_tables_table(table) {
            // Changes in _tables or _index cannot race with any other table
            // or index, because of the invariants between their documents.
            reads.record_indexed_derived(
                TabletIndexName::by_id(tables_tablet),
                IndexedFields::by_id(),
                Interval::all(),
            );
            reads.record_indexed_derived(
                TabletIndexName::by_id(index_tablet),
                IndexedFields::by_id(),
                Interval::all(),
            );
            Ok(())
        } else {
            // Writes to a table require that the table still exists.
            reads.record_indexed_derived(
                TabletIndexName::by_id(tables_tablet),
                IndexedFields::by_id(),
                Interval::prefix(KeyPart::Id((tables_number, table.0))),
            );

            // They also need all of the indexes that they touch to be stable,
            // so they depend on all indexes of the table. The index by table
            // id does not really exist, which does not matter: to tell whether
            // a change conflicts with a read, the index need not be read.
            match table_id_value {
                Ok(value) => {
                    reads.record_indexed_derived(
                        TabletIndexName::new(index_tablet, "by_table_id"),
                        IndexedFields::single("table_id"),
                        Interval::prefix(KeyPart::Value(Some(value))),
                    );
                    Ok(())
                },
                Err(reason) => Err(WriteError::TabletIdNotSerialized { reason }),
            }
        }
    }

    /// Registers a newly allocated document id.
    /// This enables us to check for reuse on commit.
    pub fn register_new_id(
        &mut self,
        reads: &mut TransactionReadSet,
        document_id: ResolvedDocumentId,
    ) -> (result: Result<(), WriteError>)
        ensures
            result == old(self)@.register_outcome(document_id),
            final(self)@ == old(self)@.after_register(document_id),
            old(self)@.well_formed() ==> final(self)@.well_formed(),
            final(reads)@ == old(reads)@ + old(self)@.register_reads(document_id),
    {
        if self.generated_ids.contains(&document_id) {
            assert(self.generated_ids@ =~= self.generated_ids@.insert(document_id));
            return Err(WriteError::DuplicateId { document_id });
        }
        self.generated_ids.insert(document_id);

        // A new id must never have existed before. That it did not exist when
        // the transaction began is checked on commit; the dependency on the
        // id makes sure that no parallel commit creates it.
        let ((tablet_id, _), _) = document_id;
        reads.record_indexed_derived(
            TabletIndexName::by_id(tablet_id),
            IndexedFields::by_id(),
            Interval::prefix(KeyPart::Id(developer_id(document_id))),
        );
        Ok(())
    }

    /// How much did the transaction write to user tables?
    pub fn user_size(&self) -> (result: &TransactionWriteSize)
        ensures
            result@ == self@.user_size,
    {
        &self.user_tx_size
    }

    /// How much did the transaction write to system tables?
    pub fn system_size(&self) -> (result: &TransactionWriteSize)
        ensures
            result@ == self@.system_size,
    {
        &self.system_tx_size
    }

    /// Iterates over the coalesced writes, in increasing order of document
    /// ids (so no document id appears twice).
    pub fn coalesced_writes(&self) -> (result: std::collections::btree_map::Iter<
        '_,
        ResolvedDocumentId,
        DocumentUpdate,
    >)
        ensures
            lists_updates(
                vstd::std_specs::iter::IteratorSpec::remaining(&result).map_values(
                    |write: (&ResolvedDocumentId, &DocumentUpdate)| (*write.0, *write.1),
                ),
                self@.updates,
            ),
            vstd::std_specs::iter::IteratorSpec::decrease(&result) is Some,
            vstd::std_specs::iter::IteratorSpec::initial_value_relation(&result, &result),
    {
        let iter = self.updates.iter();
        proof {
            let remaining = vstd::std_specs::iter::IteratorSpec::remaining(&iter);
            let list = remaining.map_values(
                |write: (&ResolvedDocumentId, &DocumentUpdate)| (*write.0, *write.1),
            );
            let keys = remaining.map_values(
                |write: (&ResolvedDocumentId, &DocumentUpdate)| *write.0,
            );
            assert forall|i: int| 0 <= i < list.len() implies self.updates@.contains_key(
                #[trigger] list[i].0,
            ) && self.updates@[list[i].0] == list[i].1 by {
                assert(self.updates@.contains_key(*remaining[i].0));
            }
            assert forall|id: ResolvedDocumentId| #[trigger]
                self.updates@.contains_key(id) implies list.contains((id, self.updates@[id])) by {
                let i = remaining.index_of((&id, &self.updates@[id]));
                assert(remaining.contains((&id, &self.updates@[id])));
                assert(list[i] == (id, self.updates@[id]));
            }
            assert(vstd::laws_cmp::obeys_cmp::<ResolvedDocumentId>());
            assert(vstd::std_specs::btree::increasing_seq(keys));
            assert forall|i: int, j: int| 0 <= i < j < list.len() implies id_precedes(
                #[trigger] list[i].0,
                #[trigger] list[j].0,
            ) by {
                assert(vstd::std_specs::cmp::OrdSpec::cmp_spec(&keys[i], &keys[j]) is Less);
            }
        }
        iter
    }

    /// Returns the ids of the documents that were written, in increasing order.
    fn written_ids(&self) -> (result: Vec<ResolvedDocumentId>)
        ensures
            lists_updates(with_updates(result@, self@.updates), self@.updates),
    {
        let ghost updates = self@.updates;
        let mut ids: Vec<ResolvedDocumentId> = Vec::new();
        for write in it: self.coalesced_writes()
            invariant
                updates == self@.updates,
                lists_updates(
                    it.seq().map_values(
                        |write: (&ResolvedDocumentId, &DocumentUpdate)| (*write.0, *write.1),
                    ),
                    updates,
                ),
                ids@.len() == it.index(),
                forall|j: int| 0 <= j < it.index() ==> ids@[j] == *it.seq()[j].0,
                it.index() == it.seq().len() ==> lists_updates(
                    with_updates(ids@, updates),
                    updates,
                ),
        {
            ids.push(*write.0);
            proof {
                let list = it.seq().map_values(
                    |write: (&ResolvedDocumentId, &DocumentUpdate)| (*write.0, *write.1),
                );
                assert forall|j: int| 0 <= j < ids@.len() implies with_updates(ids@, updates)[j]
                    == list[j] by {
                    assert(updates[list[j].0] == list[j].1);
                }
                assert(ids@.len() == list.len() ==> with_updates(ids@, updates) =~= list);
            }
        }
        ids
    }

    /// Returns the coalesced writes, in increasing order of document ids (so
    /// no document id appears twice).
    pub fn into_coalesced_writes(self) -> (result: Vec<(ResolvedDocumentId, DocumentUpdate)>)
        ensures
            lists_updates(result@, self@.updates),
    {
        let ghost all = self@.updates;
        let ids = self.written_ids();
        let ghost list = with_updates(ids@, all);
        let mut updates = self.updates;
        assert forall|j: int| 0 <= j < ids@.len() implies all.contains_key(#[trigger] ids@[j]) by {
            assert(all.contains_key(list[j].0));
        }
        let mut result: Vec<(ResolvedDocumentId, DocumentUpdate)> = Vec::new();
        let mut i: usize = 0;
        while i < ids.len()
            invariant
                i <= ids@.len(),
                list == with_updates(ids@, all),
                lists_updates(list, all),
                result@ == list.take(i as int),
                forall|j: int|
                    i <= j < ids@.len() ==> updates@.contains_key(#[trigger] ids@[j])
                        && updates@[ids@[j]] == all[ids@[j]],
            decreases ids@.len() - i,
        {
            let ghost before = updates@;
            match updates.remove(&ids[i]) {
                Some(update) => {
                    result.push((ids[i], update));
                },
                None => {
                    assert(false);
                },
            }
            assert forall|j: int| i < j < ids@.len() implies updates@.contains_key(
                #[trigger] ids@[j],
            ) && updates@[ids@[j]] == all[ids@[j]] by {
                assert(id_precedes(list[i as int].0, list[j].0));
                assert(before.contains_key(ids@[j]));
            }
            assert(result@ =~= list.take(i + 1));
            i += 1;
        }
        assert(result@ =~= list);
        result
    }

    /// Returns the coalesced changes and the generated document ids.
    pub fn into_updates_and_generated_ids(self) -> (result: (
        BTreeMap<ResolvedDocumentId, DocumentUpdate>,
        BTreeSet<ResolvedDocumentId>,
    ))
        ensures
            result.0@ == self@.updates,
            result.1@ == self@.generated_ids,
    {
        (self.updates, self.generated_ids)
    }
}

} // verus!
