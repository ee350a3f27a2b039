//! Identifiers of tables and documents.
//!
//! The identifiers are tuples of integers, so that they order as the standard
//! library orders tuples: from the first component to the last.

use vstd::prelude::*;

verus! {

/// The 128 bits of an identifier, most significant byte first.
pub type InternalId = u128;

/// The identifier of a physical table.
pub type TabletId = InternalId;

/// The number under which developers know a table.
pub type TableNumber = u32;

/// A table: its tablet, then its number.
pub type TabletIdAndTableNumber = (TabletId, TableNumber);

/// A document as developers name it: the number of its table, then its own id.
pub type DeveloperDocumentId = (TableNumber, InternalId);

/// A document: its table, then its own id in that table.
pub type ResolvedDocumentId = (TabletIdAndTableNumber, InternalId);

/// The strict order of document ids: by tablet, then by table number, then by
/// the id within the table.
pub open spec fn id_precedes(a: ResolvedDocumentId, b: ResolvedDocumentId) -> bool {
    let ((tablet_a, number_a), internal_a) = a;
    let ((tablet_b, number_b), internal_b) = b;
    ||| tablet_a < tablet_b
    ||| tablet_a == tablet_b && number_a < number_b
    ||| tablet_a == tablet_b && number_a == number_b && internal_a < internal_b
}

/// The name that developers have for document `id`.
pub open spec fn developer_id_of(id: ResolvedDocumentId) -> DeveloperDocumentId {
    let ((_, table_number), internal_id) = id;
    (table_number, internal_id)
}

/// Returns the name that developers have for document `id`.
pub fn developer_id(id: ResolvedDocumentId) -> (result: DeveloperDocumentId)
    ensures
        result == developer_id_of(id),
{
    let ((_, table_number), internal_id) = id;
    (table_number, internal_id)
}

/// The two tables that describe all others: `_tables`, with one document for
/// each table, and `_index`, with one document for each index.
#[derive(Clone, Copy, Debug, PartialEq, Eq)]
pub struct BootstrapTableIds {
    pub tables_id: TabletIdAndTableNumber,
    pub index_id: TabletIdAndTableNumber,
}

impl BootstrapTableIds {
    /// Is `table` one of the two tables that describe all others?
    pub open spec fn describes_tables(self, table: TabletIdAndTableNumber) -> bool {
        table == self.index_id || table == self.tables_id
    }

    /// Is `table` the `_index` table?
    pub fn is_index_table(&self, table: TabletIdAndTableNumber) -> (result: bool)
        ensures
            result == (table == self.index_id),
    {
        table.0 == self.index_id.0 && table.1 == self.index_id.1
    }

    /// Is `table` the `_tables` table?
    pub fn is_tables_table(&self, table: TabletIdAndTableNumber) -> (result: bool)
        ensures
            result == (table == self.tables_id),
    {
        table.0 == self.tables_id.0 && table.1 == self.tables_id.1
    }
}

} // verus!
