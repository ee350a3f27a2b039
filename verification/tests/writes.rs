use std::collections::BTreeSet;
use transaction_writes::document::{ConvexObject, ConvexValue, DocumentUpdate, ResolvedDocument};
use transaction_writes::error::WriteError;
use transaction_writes::ids::{
    BootstrapTableIds, InternalId, ResolvedDocumentId, TabletIdAndTableNumber,
};
use transaction_writes::model::{DocumentIdEncoding, WriteLimits};
use transaction_writes::reads::TransactionReadSet;
use transaction_writes::writes::Writes;

const LIMITS: WriteLimits = WriteLimits {
    max_num_user_writes: 100,
    max_user_write_size_bytes: 10_000,
    max_system_num_writes: 100,
    max_system_write_size_bytes: 10_000,
};

/// Hands out table numbers and ids, each only once.
struct TestIdGenerator {
    next: u32,
    tables_id: TabletIdAndTableNumber,
    index_id: TabletIdAndTableNumber,
}

impl TestIdGenerator {
    fn new() -> Self {
        TestIdGenerator {
            next: 10_000,
            tables_id: (0x1000, 1),
            index_id: (0x2000, 2),
        }
    }

    fn user_table_id(&mut self) -> TabletIdAndTableNumber {
        self.next += 1;
        (0xabc0_0000_0000_0000 + u128::from(self.next), self.next)
    }

    fn generate(&mut self, table: TabletIdAndTableNumber) -> ResolvedDocumentId {
        self.next += 1;
        (table, InternalId::from(self.next))
    }

    fn bootstrap_tables(&self) -> BootstrapTableIds {
        BootstrapTableIds {
            tables_id: self.tables_id,
            index_id: self.index_id,
        }
    }
}

fn value(text: &str) -> ConvexValue {
    ConvexValue {
        bytes: text.as_bytes().to_vec(),
    }
}

/// The tablet's id as the metadata of its indexes holds it.
fn table_id_value(table: TabletIdAndTableNumber) -> ConvexValue {
    value(&format!("{:032x}", table.0))
}

fn object(fields: &[(&str, &str)]) -> ConvexObject {
    ConvexObject {
        fields: fields
            .iter()
            .map(|(name, text)| (name.to_string(), value(text)))
            .collect(),
        size: 2 + fields
            .iter()
            .map(|(name, text)| name.len() + text.len() + 3)
            .sum::<usize>(),
    }
}

fn document(id: ResolvedDocumentId, fields: &[(&str, &str)]) -> ResolvedDocument {
    ResolvedDocument {
        id,
        creation_time: 1.0f64.to_bits(),
        value: object(fields),
    }
}

fn encoding(id: ResolvedDocumentId) -> DocumentIdEncoding {
    DocumentIdEncoding {
        size: 20,
        table_id_value: Ok(table_id_value(id.0)),
    }
}

fn index_document(
    id: ResolvedDocumentId,
    table: TabletIdAndTableNumber,
    name: &str,
) -> ResolvedDocument {
    ResolvedDocument {
        id,
        creation_time: 1.0f64.to_bits(),
        value: ConvexObject {
            fields: vec![
                ("descriptor".to_string(), value(name)),
                ("table_id".to_string(), table_id_value(table)),
            ],
            size: 80,
        },
    }
}

fn change(
    id: ResolvedDocumentId,
    old_document: Option<ResolvedDocument>,
    new_document: Option<ResolvedDocument>,
) -> DocumentUpdate {
    DocumentUpdate {
        id,
        old_document,
        new_document,
    }
}

#[test]
fn test_write_read_dependencies() -> Result<(), WriteError> {
    // Create table mapping.
    let mut id_generator = TestIdGenerator::new();
    let user_table1 = id_generator.user_table_id();
    let user_table2 = id_generator.user_table_id();
    let bootstrap_tables = id_generator.bootstrap_tables();

    // Writes to a table should OCC with modification of the table metadata
    // or an index of the same table.
    let mut user_table1_write = TransactionReadSet::new();
    Writes::record_reads_for_write(
        bootstrap_tables,
        &mut user_table1_write,
        user_table1,
        Ok(table_id_value(user_table1)),
    )?;

    let user_table1_table_metadata_change = document(
        (bootstrap_tables.tables_id, user_table1.0),
        &[("name", "big_table"), ("state", "active")],
    );
    assert!(user_table1_write
        .overlaps(&user_table1_table_metadata_change)
        .is_some());

    let user_table1_index_change = index_document(
        id_generator.generate(bootstrap_tables.index_id),
        user_table1,
        "by_likes",
    );
    assert!(user_table1_write
        .overlaps(&user_table1_index_change)
        .is_some());

    // Writes to a table should *not* OCC with modification of the table metadata
    // or an index of unrelated same table.
    let user_table2_table_metadata_change = document(
        (bootstrap_tables.tables_id, user_table2.0),
        &[("name", "small_table"), ("state", "active")],
    );
    assert!(user_table1_write
        .overlaps(&user_table2_table_metadata_change)
        .is_none());

    let user_table2_index_change = index_document(
        id_generator.generate(bootstrap_tables.index_id),
        user_table2,
        "by_likes",
    );
    assert!(user_table1_write
        .overlaps(&user_table2_index_change)
        .is_none());

    // Changes to any index metadata should conflict with changes to any
    // other table or index metadata.
    let mut metadata_write = TransactionReadSet::new();
    let index_table_id = bootstrap_tables.index_id;
    Writes::record_reads_for_write(
        bootstrap_tables,
        &mut metadata_write,
        index_table_id,
        Ok(table_id_value(index_table_id)),
    )?;

    assert!(metadata_write
        .overlaps(&user_table1_table_metadata_change)
        .is_some());

    assert!(metadata_write
        .overlaps(&user_table1_index_change)
        .is_some());

    assert!(metadata_write
        .overlaps(&user_table2_table_metadata_change)
        .is_some());

    assert!(metadata_write
        .overlaps(&user_table2_index_change)
        .is_some());

    Ok(())
}

#[test]
fn test_register_new_id() -> Result<(), WriteError> {
    let mut id_generator = TestIdGenerator::new();
    let table = id_generator.user_table_id();
    let bootstrap_tables = id_generator.bootstrap_tables();
    let mut writes = Writes::new();
    let mut reads = TransactionReadSet::new();
    let id = id_generator.generate(table);
    let document = document(id, &[("hello", "world")]);
    writes.update(
        bootstrap_tables,
        &LIMITS,
        false,
        &mut reads,
        id,
        encoding(id),
        DocumentUpdate {
            id,
            old_document: None,
            new_document: Some(document),
        },
    )?;
    assert_eq!(writes.generated_ids, BTreeSet::from([id]));
    Ok(())
}

#[test]
fn test_document_updates_are_combined() -> Result<(), WriteError> {
    let mut id_generator = TestIdGenerator::new();
    let table = id_generator.user_table_id();
    let bootstrap_tables = id_generator.bootstrap_tables();

    let mut writes = Writes::new();
    let mut reads = TransactionReadSet::new();
    let id = id_generator.generate(table);
    let old_document = document(id, &[]);
    let new_document = document(id, &[("hello", "world")]);
    writes.update(
        bootstrap_tables,
        &LIMITS,
        false,
        &mut reads,
        id,
        encoding(id),
        DocumentUpdate {
            id,
            old_document: Some(old_document.clone()),
            new_document: Some(new_document.clone()),
        },
    )?;
    let newer_document = document(id, &[("foo", "bar"), ("hello", "world")]);
    writes.update(
        bootstrap_tables,
        &LIMITS,
        false,
        &mut reads,
        id,
        encoding(id),
        DocumentUpdate {
            id,
            old_document: Some(new_document),
            new_document: Some(newer_document.clone()),
        },
    )?;

    let (mut updates, generated_ids) = writes.into_updates_and_generated_ids();
    assert_eq!(updates.len(), 1);
    assert_eq!(
        updates.pop_first().unwrap(),
        (
            id,
            DocumentUpdate {
                id,
                old_document: Some(old_document),
                new_document: Some(newer_document),
            }
        )
    );
    assert_eq!(generated_ids, BTreeSet::from([]));
    Ok(())
}
