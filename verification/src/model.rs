//! What a write set holds, and what a write does to it.

use crate::document::{
    document_size, lookup, same_document, ConvexValue, DocumentUpdate, ResolvedDocument,
};
use crate::error::WriteError;
use crate::ids::{
    developer_id_of, id_precedes, BootstrapTableIds, ResolvedDocumentId, TabletId,
    TabletIdAndTableNumber,
};
use crate::reads::{IndexReadView, IntervalView, KeyPartView};
use vstd::prelude::*;

verus! {

/// How much a transaction may write.
#[derive(Clone, Copy, Debug, PartialEq, Eq)]
pub struct WriteLimits {
    pub max_num_user_writes: usize,
    pub max_user_write_size_bytes: usize,
    pub max_system_num_writes: usize,
    pub max_system_write_size_bytes: usize,
}

/// How a document id and its tablet's id are encoded.
#[derive(Debug, PartialEq)]
pub struct DocumentIdEncoding {
    /// The size in bytes of the document id.
    pub size: usize,
    /// The tablet's id as index metadata holds it, or why it cannot be held.
    pub table_id_value: Result<ConvexValue, String>,
}

/// A number of writes, and the bytes that they write.
pub struct WriteSize {
    pub num_writes: nat,
    pub size: nat,
}

impl WriteSize {
    /// No writes.
    pub open spec fn zero() -> Self {
        WriteSize { num_writes: 0, size: 0 }
    }

    /// One write more, of `bytes` bytes.
    pub open spec fn add_write(self, bytes: nat) -> Self {
        WriteSize { num_writes: self.num_writes + 1, size: self.size + bytes }
    }
}

/// One request to write a document.
pub struct WriteRequest {
    pub tables: BootstrapTableIds,
    pub limits: WriteLimits,
    pub is_system_document: bool,
    pub document_id: ResolvedDocumentId,
    pub id_encoding: DocumentIdEncoding,
    pub document_update: DocumentUpdate,
}

impl WriteRequest {
    /// The table that is written to.
    pub open spec fn table(self) -> TabletIdAndTableNumber {
        self.document_id.0
    }

    /// Does the request insert a document, rather than change an existing one?
    pub open spec fn is_insert(self) -> bool {
        self.document_update.old_document is None
    }

    /// The reads on which a write to the request's table depends.
    pub open spec fn table_reads(self) -> Seq<IndexReadView> {
        table_reads(self.tables, self.table(), self.id_encoding.table_id_value)
    }

    /// Whether these reads can be recorded.
    pub open spec fn table_reads_outcome(self) -> Result<(), WriteError> {
        table_reads_outcome(self.tables, self.table(), self.id_encoding.table_id_value)
    }

    /// The bytes that the write counts for: those of the id and of the new document.
    pub open spec fn bytes(self) -> nat {
        self.id_encoding.size as nat + document_size(self.document_update.new_document)
    }
}

/// What can be asked of a write set: to write a document, or to allocate an id.
pub enum Operation {
    Update(WriteRequest),
    Register(ResolvedDocumentId),
}

/// The read of the document `id` alone, through its table's index by id.
pub open spec fn document_read(id: ResolvedDocumentId) -> IndexReadView {
    let ((tablet_id, _), _) = id;
    IndexReadView {
        table: tablet_id,
        descriptor: "by_id"@,
        fields: Seq::empty(),
        interval: IntervalView::Prefix(seq![KeyPartView::Id(developer_id_of(id))]),
    }
}

/// The read of every document of a table, through its index by id.
pub open spec fn whole_table_read(tablet_id: TabletId) -> IndexReadView {
    IndexReadView {
        table: tablet_id,
        descriptor: "by_id"@,
        fields: Seq::empty(),
        interval: IntervalView::All,
    }
}

/// The read of the documents of `_index` that describe the indexes of the
/// table whose id index metadata holds as `table_id_value`.
pub open spec fn indexes_read(tables: BootstrapTableIds, table_id_value: Seq<u8>) -> IndexReadView {
    IndexReadView {
        table: tables.index_id.0,
        descriptor: "by_table_id"@,
        fields: seq!["table_id"@],
        interval: IntervalView::Prefix(seq![KeyPartView::Value(Some(table_id_value))]),
    }
}

/// The reads on which a write to `table` depends. A write to `_tables` or
/// `_index` depends on all tables and all indexes. Any other write depends on
/// the document that describes its table, and then on those that describe its
/// table's indexes, if the table's id can be held in index metadata.
pub open spec fn table_reads(
    tables: BootstrapTableIds,
    table: TabletIdAndTableNumber,
    table_id_value: Result<ConvexValue, String>,
) -> Seq<IndexReadView> {
    if tables.describes_tables(table) {
        seq![whole_table_read(tables.tables_id.0), whole_table_read(tables.index_id.0)]
    } else {
        let table_read = document_read((tables.tables_id, table.0));
        match table_id_value {
            Ok(value) => seq![table_read, indexes_read(tables, value@)],
            Err(_) => seq![table_read],
        }
    }
}

/// Does `document` describe tablet `x`, or an index of it? Index metadata
/// holds the id of a tablet as `stored_form` gives it.
pub open spec fn describes_tablet(
    tables: BootstrapTableIds,
    stored_form: spec_fn(TabletId) -> Seq<u8>,
    document: ResolvedDocument,
    x: TabletId,
) -> bool {
    ||| document.id == (tables.tables_id, x)
    ||| document.id.0.0 == tables.index_id.0 && lookup(document.value@, "table_id"@) == Some(
        stored_form(x),
    )
}

/// Whether the reads on which a write to `table` depends can be recorded.
pub open spec fn table_reads_outcome(
    tables: BootstrapTableIds,
    table: TabletIdAndTableNumber,
    table_id_value: Result<ConvexValue, String>,
) -> Result<(), WriteError> {
    match table_id_value {
        Err(reason) if !tables.describes_tables(table) => Err(
            WriteError::TabletIdNotSerialized { reason },
        ),
        _ => Ok(()),
    }
}

/// What a write set holds.
#[verifier::ext_equal]
pub struct WriteSet {
    /// The coalesced change to each document that was written.
    pub updates: Map<ResolvedDocumentId, DocumentUpdate>,
    /// The document ids that the transaction allocated.
    pub generated_ids: Set<ResolvedDocumentId>,
    /// The writes to user tables.
    pub user_size: WriteSize,
    /// The writes to system tables.
    pub system_size: WriteSize,
    /// The tables that were written to.
    pub written_tables: Set<TabletIdAndTableNumber>,
}

impl WriteSet {
    /// The write set without writes.
    pub open spec fn empty() -> Self {
        WriteSet {
            updates: Map::empty(),
            generated_ids: Set::empty(),
            user_size: WriteSize::zero(),
            system_size: WriteSize::zero(),
            written_tables: Set::empty(),
        }
    }

    /// What holds of every write set: a document that was written is in a
    /// table that was written to, the id of a document that was inserted was
    /// allocated, and there are at least as many writes as there are documents
    /// that were written, and as there are tables.
    pub open spec fn well_formed(self) -> bool {
        let num_writes = self.user_size.num_writes + self.system_size.num_writes;
        &&& forall|id: ResolvedDocumentId| #[trigger]
            self.updates.contains_key(id) ==> self.written_tables.contains(id.0)
        &&& forall|id: ResolvedDocumentId| #[trigger]
            self.updates.contains_key(id) && self.updates[id].old_document is None
                ==> self.generated_ids.contains(id)
        &&& self.updates.dom().finite()
        &&& self.updates.dom().len() <= num_writes
        &&& self.written_tables.finite()
        &&& self.written_tables.len() <= num_writes
    }

    /// Do the changes to documents tell the other contents of the write set,
    /// apart from its sizes? Then the allocated ids are those of the documents
    /// that were inserted, and the tables written to are those of the
    /// documents that were written.
    pub open spec fn is_told_by_updates(self) -> bool {
        &&& forall|id: ResolvedDocumentId| #[trigger]
            self.generated_ids.contains(id) <==> self.updates.contains_key(id)
                && self.updates[id].old_document is None
        &&& forall|id: ResolvedDocumentId| #[trigger]
            self.updates.contains_key(id) ==> self.written_tables.contains(id.0)
        &&& forall|table: TabletIdAndTableNumber| #[trigger]
            self.written_tables.contains(table) ==> exists|id: ResolvedDocumentId|
                id.0 == table && #[trigger] self.updates.contains_key(id)
    }

    /// Whether `document_id` can be allocated: only once.
    pub open spec fn register_outcome(self, document_id: ResolvedDocumentId) -> Result<
        (),
        WriteError,
    > {
        if self.generated_ids.contains(document_id) {
            Err(WriteError::DuplicateId { document_id })
        } else {
            Ok(())
        }
    }

    /// Whether `request` may go ahead, as far as it is an insertion: a
    /// document can be inserted if the transaction has neither written it nor
    /// allocated its id.
    pub open spec fn insert_outcome(self, request: WriteRequest) -> Result<(), WriteError> {
        if !request.is_insert() {
            Ok(())
        } else if self.updates.contains_key(request.document_id) {
            Err(WriteError::DuplicateInsert)
        } else {
            self.register_outcome(request.document_id)
        }
    }

    /// Whether `request` allocates the id of its document.
    pub open spec fn registers(self, request: WriteRequest) -> bool {
        request.is_insert() && self.insert_outcome(request) is Ok
    }

    /// Whether `request` gets as far as being counted as a write.
    pub open spec fn counts(self, request: WriteRequest) -> bool {
        &&& self.insert_outcome(request) is Ok
        &&& request.table_reads_outcome() is Ok
    }

    /// The writes made so far, to system tables or to user tables.
    pub open spec fn size(self, is_system: bool) -> WriteSize {
        if is_system {
            self.system_size
        } else {
            self.user_size
        }
    }

    /// Whether the numbers of writes and bytes still fit their counters once
    /// `request` is counted.
    pub open spec fn has_room_for(self, request: WriteRequest) -> bool {
        self.counts(request) ==> {
            let size = self.size(request.is_system_document).add_write(request.bytes());
            size.num_writes <= usize::MAX && size.size <= usize::MAX
        }
    }

    /// Whether `request`, once counted, is within its limits.
    pub open spec fn limit_outcome(self, request: WriteRequest) -> Result<(), WriteError> {
        let limits = request.limits;
        let size = self.size(request.is_system_document).add_write(request.bytes());
        if request.is_system_document {
            if size.num_writes > limits.max_system_num_writes {
                Err(WriteError::TooManySystemWrites { num_writes: size.num_writes as usize })
            } else if size.size > limits.max_system_write_size_bytes {
                Err(WriteError::TooManySystemBytes { size: size.size as usize })
            } else {
                Ok(())
            }
        } else {
            if size.num_writes > limits.max_num_user_writes {
                Err(WriteError::TooManyWrites { limit: limits.max_num_user_writes })
            } else if size.size > limits.max_user_write_size_bytes {
                Err(WriteError::TooManyBytesWritten { limit: limits.max_user_write_size_bytes })
            } else {
                Ok(())
            }
        }
    }

    /// Whether the document that `request` replaces is the one last written.
    pub open spec fn consistency_outcome(self, request: WriteRequest) -> Result<(), WriteError> {
        let id = request.document_id;
        if self.updates.contains_key(id) && !same_document(
            self.updates[id].new_document,
            request.document_update.old_document,
        ) {
            Err(WriteError::InconsistentUpdate)
        } else {
            Ok(())
        }
    }

    /// Whether `request` is carried out or why not: the first obstacle, in
    /// the order of insertion, table, limits and consistency.
    pub open spec fn update_outcome(self, request: WriteRequest) -> Result<(), WriteError> {
        let table_outcome = request.table_reads_outcome();
        if self.insert_outcome(request) is Err {
            self.insert_outcome(request)
        } else if table_outcome is Err {
            table_outcome
        } else if self.limit_outcome(request) is Err {
            self.limit_outcome(request)
        } else {
            self.consistency_outcome(request)
        }
    }

    /// The change to the document of `request` once the request is carried
    /// out: from what the document was before the transaction's first write
    /// to what it is after this one.
    pub open spec fn coalesced(self, request: WriteRequest) -> DocumentUpdate {
        let id = request.document_id;
        if self.updates.contains_key(id) {
            DocumentUpdate {
                new_document: request.document_update.new_document,
                ..self.updates[id]
            }
        } else {
            request.document_update
        }
    }

    /// The write set after `request`, be it carried out or refused. A refused
    /// request changes no document, but the id that it allocated stays
    /// allocated, and a request that was counted stays counted.
    pub open spec fn after_update(self, request: WriteRequest) -> Self {
        let id = request.document_id;
        let is_system = request.is_system_document;
        let counts = self.counts(request);
        WriteSet {
            updates: if self.update_outcome(request) is Ok {
                self.updates.insert(id, self.coalesced(request))
            } else {
                self.updates
            },
            generated_ids: if self.registers(request) {
                self.generated_ids.insert(id)
            } else {
                self.generated_ids
            },
            user_size: if counts && !is_system {
                self.user_size.add_write(request.bytes())
            } else {
                self.user_size
            },
            system_size: if counts && is_system {
                self.system_size.add_write(request.bytes())
            } else {
                self.system_size
            },
            written_tables: if counts {
                self.written_tables.insert(request.table())
            } else {
                self.written_tables
            },
        }
    }

    /// The reads that `request` makes the transaction depend on.
    pub open spec fn update_reads(self, request: WriteRequest) -> Seq<IndexReadView> {
        let id_reads = if self.registers(request) {
            seq![document_read(request.document_id)]
        } else {
            Seq::empty()
        };
        if self.insert_outcome(request) is Err {
            Seq::empty()
        } else {
            id_reads + request.table_reads()
        }
    }

    /// The write set once `document_id` is allocated.
    pub open spec fn after_register(self, document_id: ResolvedDocumentId) -> Self {
        WriteSet { generated_ids: self.generated_ids.insert(document_id), ..self }
    }

    /// The write set after `operation`.
    pub open spec fn after(self, operation: Operation) -> Self {
        match operation {
            Operation::Update(request) => self.after_update(request),
            Operation::Register(document_id) => self.after_register(document_id),
        }
    }

    /// The write set after each of `operations` in turn.
    pub open spec fn after_all(self, operations: Seq<Operation>) -> Self
        decreases operations.len(),
    {
        if operations.len() == 0 {
            self
        } else {
            self.after_all(operations.drop_last()).after(operations.last())
        }
    }

    /// The reads that allocating `document_id` makes the transaction depend on.
    pub open spec fn register_reads(self, document_id: ResolvedDocumentId) -> Seq<IndexReadView> {
        if self.register_outcome(document_id) is Ok {
            seq![document_read(document_id)]
        } else {
            Seq::empty()
        }
    }

    /// The reads that each of `operations` in turn makes the transaction
    /// depend on.
    pub open spec fn reads_of_all(self, operations: Seq<Operation>) -> Seq<IndexReadView>
        decreases operations.len(),
    {
        if operations.len() == 0 {
            Seq::empty()
        } else {
            let before = self.after_all(operations.drop_last());
            self.reads_of_all(operations.drop_last()) + match operations.last() {
                Operation::Update(request) => before.update_reads(request),
                Operation::Register(document_id) => before.register_reads(document_id),
            }
        }
    }

    /// When each of `operations` is made in turn, is the one at `i` counted as a write?
    pub open spec fn counts_at(self, operations: Seq<Operation>, i: int) -> bool {
        &&& 0 <= i < operations.len()
        &&& match operations[i] {
            Operation::Update(request) => self.after_all(operations.take(i)).counts(request),
            Operation::Register(_) => false,
        }
    }

    /// When each of `operations` is made in turn, does the one at `i` write `id`?
    pub open spec fn writes_at(
        self,
        operations: Seq<Operation>,
        i: int,
        id: ResolvedDocumentId,
    ) -> bool {
        &&& 0 <= i < operations.len()
        &&& match operations[i] {
            Operation::Update(request) => {
                &&& request.document_id == id
                &&& self.after_all(operations.take(i)).update_outcome(request) is Ok
            },
            Operation::Register(_) => false,
        }
    }
}

/// Does `list` hold exactly the entries of `updates`, in increasing order of
/// document ids?
pub open spec fn lists_updates(
    list: Seq<(ResolvedDocumentId, DocumentUpdate)>,
    updates: Map<ResolvedDocumentId, DocumentUpdate>,
) -> bool {
    &&& forall|i: int|
        0 <= i < list.len() ==> updates.contains_key(#[trigger] list[i].0) && updates[list[i].0]
            == list[i].1
    &&& forall|id: ResolvedDocumentId| #[trigger]
        updates.contains_key(id) ==> list.contains((id, updates[id]))
    &&& forall|i: int, j: int|
        0 <= i < j < list.len() ==> id_precedes(#[trigger] list[i].0, #[trigger] list[j].0)
}

} // verus!
