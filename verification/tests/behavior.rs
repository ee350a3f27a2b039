use std::collections::{BTreeMap, BTreeSet};
use transaction_writes::document::{
    ConvexObject, ConvexValue, DocumentUpdate, DocumentWrite, ResolvedDocument,
};
use transaction_writes::error::WriteError;
use transaction_writes::ids::{BootstrapTableIds, ResolvedDocumentId, TabletIdAndTableNumber};
use transaction_writes::model::{DocumentIdEncoding, WriteLimits};
use transaction_writes::reads::{IndexedFields, Interval, KeyPart, TransactionReadSet};
use transaction_writes::writes::{TransactionWriteSize, Writes};

const TABLES: BootstrapTableIds = BootstrapTableIds {
    tables_id: (100, 1),
    index_id: (200, 2),
};
const TABLE: TabletIdAndTableNumber = (300, 10_001);
const OTHER_TABLE: TabletIdAndTableNumber = (400, 10_002);
const ID: ResolvedDocumentId = (TABLE, 7);
const LIMITS: WriteLimits = WriteLimits {
    max_num_user_writes: 3,
    max_user_write_size_bytes: 100,
    max_system_num_writes: 2,
    max_system_write_size_bytes: 50,
};

fn value(byte: u8) -> ConvexValue {
    ConvexValue { bytes: vec![byte] }
}

fn document(id: ResolvedDocumentId, byte: u8, size: usize) -> ResolvedDocument {
    ResolvedDocument {
        id,
        creation_time: 1,
        value: ConvexObject {
            fields: vec![("field".to_string(), value(byte))],
            size,
        },
    }
}

fn index_document(internal_id: u128, table_id: Option<ConvexValue>) -> ResolvedDocument {
    ResolvedDocument {
        id: (TABLES.index_id, internal_id),
        creation_time: 1,
        value: ConvexObject {
            fields: table_id
                .into_iter()
                .map(|table_id| ("table_id".to_string(), table_id))
                .collect(),
            size: 30,
        },
    }
}

struct Transaction {
    writes: Writes,
    reads: TransactionReadSet,
    limits: WriteLimits,
}

impl Transaction {
    fn new() -> Self {
        Transaction {
            writes: Writes::new(),
            reads: TransactionReadSet::new(),
            limits: LIMITS,
        }
    }

    fn write(
        &mut self,
        is_system: bool,
        id: ResolvedDocumentId,
        old_document: Option<ResolvedDocument>,
        new_document: Option<ResolvedDocument>,
    ) -> Result<(), WriteError> {
        self.writes.update(
            TABLES,
            &self.limits,
            is_system,
            &mut self.reads,
            id,
            DocumentIdEncoding {
                size: 4,
                table_id_value: Ok(value(id.0 .1 as u8)),
            },
            DocumentUpdate {
                id,
                old_document,
                new_document,
            },
        )
    }

    fn change(&self, id: ResolvedDocumentId) -> DocumentUpdate {
        self.writes
            .coalesced_writes()
            .find(|(other, _)| **other == id)
            .unwrap()
            .1
            .clone()
    }
}

fn size(num_writes: usize, size: usize) -> TransactionWriteSize {
    TransactionWriteSize { num_writes, size }
}

#[test]
fn new_write_set_is_empty() {
    let writes = Writes::new();
    assert!(writes.is_empty());
    assert!(!writes.has_written_to(&TABLE));
    assert_eq!(*writes.user_size(), TransactionWriteSize::default());
    assert_eq!(*writes.system_size(), size(0, 0));
    assert_eq!(writes.generated_ids, BTreeSet::new());
    assert_eq!(writes.coalesced_writes().count(), 0);
    assert_eq!(writes.into_coalesced_writes(), vec![]);
}

#[test]
fn update_is_seen() {
    let mut tx = Transaction::new();
    assert_eq!(tx.write(false, ID, None, Some(document(ID, 1, 10))), Ok(()));
    assert!(!tx.writes.is_empty());
    assert!(tx.writes.has_written_to(&TABLE));
    assert!(!tx.writes.has_written_to(&OTHER_TABLE));
    assert_eq!(*tx.writes.user_size(), size(1, 14));
    assert_eq!(*tx.writes.system_size(), size(0, 0));
}

#[test]
fn duplicate_insert_has_no_effect() {
    let mut tx = Transaction::new();
    tx.write(false, ID, None, Some(document(ID, 1, 10))).unwrap();
    let before = tx.writes.clone();
    let num_reads = tx.reads.reads.len();
    assert_eq!(
        tx.write(false, ID, None, Some(document(ID, 2, 10))),
        Err(WriteError::DuplicateInsert)
    );
    assert!(tx.writes == before);
    assert_eq!(tx.reads.reads.len(), num_reads);
}

#[test]
fn deleted_document_cannot_be_inserted_again() {
    let mut tx = Transaction::new();
    let inserted = document(ID, 1, 10);
    tx.write(false, ID, None, Some(inserted.clone())).unwrap();
    tx.write(false, ID, Some(inserted.clone()), None).unwrap();
    assert_eq!(
        tx.change(ID),
        DocumentUpdate {
            id: ID,
            old_document: None,
            new_document: None,
        }
    );
    assert_eq!(*tx.writes.user_size(), size(2, 18));
    assert_eq!(
        tx.write(false, ID, None, Some(inserted)),
        Err(WriteError::DuplicateInsert)
    );
}

#[test]
fn id_is_allocated_once() {
    let mut tx = Transaction::new();
    assert_eq!(tx.writes.register_new_id(&mut tx.reads, ID), Ok(()));
    assert_eq!(
        tx.writes.register_new_id(&mut tx.reads, ID),
        Err(WriteError::DuplicateId { document_id: ID })
    );
    assert_eq!(
        tx.write(false, ID, None, Some(document(ID, 1, 10))),
        Err(WriteError::DuplicateId { document_id: ID })
    );
    assert!(tx.writes.is_empty());
    assert_eq!(*tx.writes.user_size(), size(0, 0));
    assert_eq!(tx.reads.reads.len(), 1);
    assert_eq!(tx.writes.generated_ids, BTreeSet::from([ID]));
}

#[test]
fn new_id_conflicts_with_its_creation() {
    let mut reads = TransactionReadSet::new();
    Writes::new().register_new_id(&mut reads, ID).unwrap();
    assert!(reads.overlaps(&document(ID, 1, 10)).is_some());
    assert!(reads.overlaps(&document((TABLE, 8), 1, 10)).is_none());
    assert!(reads.overlaps(&document((OTHER_TABLE, 7), 1, 10)).is_none());
    let read = &reads.reads[0];
    assert_eq!(read.index_name.table, 300);
    assert_eq!(read.index_name.descriptor, "by_id");
    assert_eq!(read.fields, IndexedFields { fields: vec![] });
    assert_eq!(
        read.interval,
        Interval::Prefix(vec![KeyPart::Id((10_001, 7))])
    );
}

#[test]
fn update_of_existing_document_allocates_no_id() {
    let mut tx = Transaction::new();
    tx.write(
        false,
        ID,
        Some(document(ID, 1, 10)),
        Some(document(ID, 2, 10)),
    )
    .unwrap();
    assert_eq!(tx.writes.generated_ids, BTreeSet::new());
    assert!(tx.reads.overlaps(&document(ID, 1, 10)).is_none());
    assert_eq!(tx.reads.reads.len(), 2);
}

#[test]
fn reads_of_a_table_write() {
    let mut reads = TransactionReadSet::new();
    Writes::record_reads_for_write(TABLES, &mut reads, TABLE, Ok(value(9))).unwrap();
    assert_eq!(reads.reads.len(), 2);
    assert_eq!(reads.reads[0].index_name.table, 100);
    assert_eq!(reads.reads[0].index_name.descriptor, "by_id");
    assert_eq!(
        reads.reads[0].interval,
        Interval::Prefix(vec![KeyPart::Id((1, 300))])
    );
    assert_eq!(reads.reads[1].index_name.table, 200);
    assert_eq!(reads.reads[1].index_name.descriptor, "by_table_id");
    assert_eq!(reads.reads[1].fields.fields, vec!["table_id".to_string()]);
    assert_eq!(
        reads.reads[1].interval,
        Interval::Prefix(vec![KeyPart::Value(Some(value(9)))])
    );
    assert!(reads.overlaps(&index_document(5, Some(value(9)))).is_some());
    assert!(reads.overlaps(&index_document(5, Some(value(8)))).is_none());
    assert!(reads.overlaps(&index_document(5, None)).is_none());
    assert!(reads
        .overlaps(&document((TABLES.tables_id, 300), 1, 10))
        .is_some());
    assert!(reads
        .overlaps(&document((TABLES.tables_id, 400), 1, 10))
        .is_none());
}

#[test]
fn reads_of_a_metadata_write() {
    for table in [TABLES.tables_id, TABLES.index_id] {
        let mut reads = TransactionReadSet::new();
        Writes::record_reads_for_write(TABLES, &mut reads, table, Err("unused".to_string()))
            .unwrap();
        assert_eq!(reads.reads.len(), 2);
        assert_eq!(reads.reads[0].index_name.table, 100);
        assert_eq!(reads.reads[1].index_name.table, 200);
        assert_eq!(reads.reads[0].interval, Interval::All);
        assert_eq!(reads.reads[1].interval, Interval::All);
        assert!(reads
            .overlaps(&document((TABLES.tables_id, 1), 1, 10))
            .is_some());
        assert!(reads.overlaps(&index_document(1, None)).is_some());
        assert!(reads.overlaps(&document(ID, 1, 10)).is_none());
    }
}

#[test]
fn overlaps_returns_the_first_read() {
    let mut reads = TransactionReadSet::new();
    Writes::record_reads_for_write(TABLES, &mut reads, TABLE, Ok(value(9))).unwrap();
    Writes::record_reads_for_write(TABLES, &mut reads, TABLES.index_id, Ok(value(2))).unwrap();
    let found = reads.overlaps(&index_document(5, Some(value(9)))).unwrap();
    assert_eq!(found.index_name.descriptor, "by_table_id");
    let found = reads.overlaps(&index_document(5, Some(value(8)))).unwrap();
    assert_eq!(found.index_name.descriptor, "by_id");
}

#[test]
fn unserializable_tablet_id_is_refused() {
    let mut tx = Transaction::new();
    let result = tx.writes.update(
        TABLES,
        &LIMITS,
        false,
        &mut tx.reads,
        ID,
        DocumentIdEncoding {
            size: 4,
            table_id_value: Err("too long".to_string()),
        },
        DocumentUpdate {
            id: ID,
            old_document: None,
            new_document: Some(document(ID, 1, 10)),
        },
    );
    assert_eq!(
        result,
        Err(WriteError::TabletIdNotSerialized {
            reason: "too long".to_string()
        })
    );
    assert_eq!(tx.writes.generated_ids, BTreeSet::from([ID]));
    assert_eq!(tx.reads.reads.len(), 2);
    assert!(!tx.writes.has_written_to(&TABLE));
    assert_eq!(*tx.writes.user_size(), size(0, 0));
    assert!(tx.writes.is_empty());
}

#[test]
fn too_many_user_writes() {
    let mut tx = Transaction::new();
    for internal_id in 0..3 {
        let id = (TABLE, internal_id);
        tx.write(false, id, None, Some(document(id, 1, 10))).unwrap();
    }
    assert_eq!(
        tx.write(false, ID, None, Some(document(ID, 1, 10))),
        Err(WriteError::TooManyWrites { limit: 3 })
    );
    // The write is counted, though it is refused.
    assert_eq!(*tx.writes.user_size(), size(4, 56));
    assert_eq!(tx.writes.coalesced_writes().count(), 3);
    assert!(tx.writes.generated_ids.contains(&ID));
    // The limit stays exceeded.
    let first = (TABLE, 0);
    assert_eq!(
        tx.write(false, first, Some(document(first, 1, 10)), None),
        Err(WriteError::TooManyWrites { limit: 3 })
    );
    // System documents have limits of their own.
    let system = (OTHER_TABLE, 1);
    tx.write(true, system, None, Some(document(system, 1, 10)))
        .unwrap();
    assert_eq!(*tx.writes.system_size(), size(1, 14));
    assert_eq!(*tx.writes.user_size(), size(5, 60));
}

#[test]
fn too_many_user_bytes() {
    let mut tx = Transaction::new();
    tx.write(false, ID, None, Some(document(ID, 1, 96))).unwrap();
    assert_eq!(*tx.writes.user_size(), size(1, 100));
    assert_eq!(
        tx.write(false, ID, Some(document(ID, 1, 96)), None),
        Err(WriteError::TooManyBytesWritten { limit: 100 })
    );
    assert_eq!(*tx.writes.user_size(), size(2, 104));
    assert!(tx.change(ID).new_document.is_some());
}

#[test]
fn too_many_system_writes() {
    let mut tx = Transaction::new();
    for internal_id in 0..2 {
        let id = (TABLE, internal_id);
        tx.write(true, id, None, Some(document(id, 1, 10))).unwrap();
    }
    assert_eq!(
        tx.write(true, ID, None, Some(document(ID, 1, 10))),
        Err(WriteError::TooManySystemWrites { num_writes: 3 })
    );
    assert_eq!(*tx.writes.system_size(), size(3, 42));
    assert_eq!(*tx.writes.user_size(), size(0, 0));
}

#[test]
fn too_many_system_bytes() {
    let mut tx = Transaction::new();
    assert_eq!(
        tx.write(true, ID, None, Some(document(ID, 1, 47))),
        Err(WriteError::TooManySystemBytes { size: 51 })
    );
    assert_eq!(*tx.writes.system_size(), size(1, 51));
    assert!(tx.writes.has_written_to(&TABLE));
    assert!(tx.writes.is_empty());
}

#[test]
fn inconsistent_update_is_counted_but_changes_nothing() {
    let mut tx = Transaction::new();
    let first = document(ID, 1, 10);
    tx.write(false, ID, None, Some(first.clone())).unwrap();
    for wrong in [
        document(ID, 2, 10),
        document((TABLE, 8), 1, 10),
        ResolvedDocument {
            creation_time: 2,
            ..first.clone()
        },
    ] {
        let mut tx = Transaction {
            writes: tx.writes.clone(),
            reads: TransactionReadSet::new(),
            limits: LIMITS,
        };
        assert_eq!(
            tx.write(false, ID, Some(wrong), Some(document(ID, 3, 10))),
            Err(WriteError::InconsistentUpdate)
        );
        assert_eq!(tx.change(ID).new_document, Some(first.clone()));
        assert_eq!(*tx.writes.user_size(), size(2, 28));
    }
    // Deleting the document and then updating it is inconsistent too.
    tx.write(false, ID, Some(first.clone()), None).unwrap();
    assert_eq!(
        tx.write(false, ID, Some(first.clone()), Some(first)),
        Err(WriteError::InconsistentUpdate)
    );
}

#[test]
fn change_goes_from_first_to_last_write() {
    let mut tx = Transaction::new();
    let versions: Vec<ResolvedDocument> = (0..4).map(|n| document(ID, n, 10)).collect();
    for i in 0..3 {
        tx.write(
            false,
            ID,
            Some(versions[i].clone()),
            Some(versions[i + 1].clone()),
        )
        .unwrap();
    }
    assert_eq!(
        tx.writes.into_coalesced_writes(),
        vec![(
            ID,
            DocumentUpdate {
                id: ID,
                old_document: Some(versions[0].clone()),
                new_document: Some(versions[3].clone()),
            }
        )]
    );
}

#[test]
fn coalesced_writes_are_in_order_of_ids() {
    let mut tx = Transaction::new();
    tx.limits.max_num_user_writes = 10;
    let ids = [
        (OTHER_TABLE, 1),
        (TABLE, 9),
        ((300, 10_000), 50),
        (TABLE, u128::MAX),
        (TABLE, 2),
    ];
    for id in ids {
        tx.write(false, id, None, Some(document(id, 1, 1))).unwrap();
    }
    let sorted = vec![
        ((300, 10_000), 50),
        (TABLE, 2),
        (TABLE, 9),
        (TABLE, u128::MAX),
        (OTHER_TABLE, 1),
    ];
    let listed: Vec<ResolvedDocumentId> = tx.writes.coalesced_writes().map(|(id, _)| *id).collect();
    assert_eq!(listed, sorted);
    let pairs: Vec<(ResolvedDocumentId, DocumentUpdate)> = tx
        .writes
        .coalesced_writes()
        .map(|(id, update)| (*id, update.clone()))
        .collect();
    let (updates, generated_ids) = tx.writes.clone().into_updates_and_generated_ids();
    assert_eq!(updates, pairs.iter().cloned().collect::<BTreeMap<_, _>>());
    assert_eq!(generated_ids, ids.into_iter().collect::<BTreeSet<_>>());
    assert_eq!(tx.writes.into_coalesced_writes(), pairs);
}

#[test]
fn limits_are_inclusive() {
    let mut tx = Transaction::new();
    tx.limits.max_num_user_writes = 0;
    assert_eq!(
        tx.write(false, ID, None, None),
        Err(WriteError::TooManyWrites { limit: 0 })
    );
    let mut tx = Transaction::new();
    tx.limits.max_num_user_writes = 1;
    tx.limits.max_user_write_size_bytes = 4;
    assert_eq!(tx.write(false, ID, None, None), Ok(()));
}

#[test]
fn error_messages() {
    let id = "the_id";
    assert_eq!(WriteError::DuplicateInsert.message(id), "Duplicate insert");
    assert_eq!(
        WriteError::DuplicateId { document_id: ID }.message(id),
        "Transaction allocated the same DocumentId twice: the_id"
    );
    assert_eq!(
        WriteError::TabletIdNotSerialized {
            reason: "too long".to_string()
        }
        .message(id),
        "too long"
    );
    assert_eq!(
        WriteError::TooManySystemWrites { num_writes: 40_001 }.message(id),
        "Too many system document writes in a single transaction: 40001"
    );
    assert_eq!(
        WriteError::TooManySystemBytes { size: usize::MAX }.message(id),
        format!(
            "Too many bytes written in system tables in a single transaction: {}",
            usize::MAX
        )
    );
    assert_eq!(
        WriteError::TooManyWrites { limit: 0 }.message(id),
        "Too many writes in a single function execution (limit: 0)"
    );
    assert_eq!(
        WriteError::TooManyBytesWritten { limit: 1_000 }.message(id),
        "Too many bytes written in a single function execution (limit: 1000 bytes)"
    );
    assert_eq!(
        WriteError::InconsistentUpdate.message(id),
        "Inconsistent update: The old update's new document does not match the new document's \
         old update"
    );
}

#[test]
fn only_user_limits_are_developer_errors() {
    assert_eq!(
        WriteError::TooManyWrites { limit: 1 }.pagination_limit(),
        Some("TooManyWrites")
    );
    assert_eq!(
        WriteError::TooManyBytesWritten { limit: 1 }.pagination_limit(),
        Some("TooManyBytesWritten")
    );
    assert_eq!(
        WriteError::TooManySystemWrites { num_writes: 1 }.pagination_limit(),
        None
    );
    assert_eq!(
        WriteError::TooManySystemBytes { size: 1 }.pagination_limit(),
        None
    );
    assert_eq!(WriteError::DuplicateInsert.pagination_limit(), None);
}

#[test]
fn documents_are_equal_if_their_contents_are() {
    let a = document(ID, 1, 10);
    assert_eq!(a, a.clone());
    assert_ne!(a, document(ID, 2, 10));
    let mut longer = a.clone();
    longer.value.fields.push(("other".to_string(), value(1)));
    assert_ne!(a, longer);
    let mut renamed = a.clone();
    renamed.value.fields[0].0 = "renamed".to_string();
    assert_ne!(a, renamed);
    assert_ne!(
        ConvexValue { bytes: vec![1] },
        ConvexValue { bytes: vec![1, 2] }
    );
    let write = DocumentWrite { document: Some(a) };
    assert_eq!(write, write.clone());
    assert_ne!(write, DocumentWrite { document: None });
}

#[test]
fn writes_and_ids_stay_protected() {
    let mut tx = Transaction::new();
    tx.limits.max_num_user_writes = 1;
    tx.write(false, ID, None, Some(document(ID, 1, 10))).unwrap();
    let other = (OTHER_TABLE, 8);
    // This write is refused, but it is counted and its reads are recorded.
    assert_eq!(
        tx.write(false, other, None, Some(document(other, 1, 10))),
        Err(WriteError::TooManyWrites { limit: 1 })
    );
    for (table, id) in [(TABLE, ID), (OTHER_TABLE, other)] {
        assert!(tx
            .reads
            .overlaps(&document((TABLES.tables_id, table.0), 1, 10))
            .is_some());
        assert!(tx
            .reads
            .overlaps(&index_document(1, Some(value(table.1 as u8))))
            .is_some());
        assert!(tx.reads.overlaps(&document(id, 1, 10)).is_some());
    }
    assert!(tx
        .reads
        .overlaps(&document((TABLES.tables_id, 500), 1, 10))
        .is_none());
}

#[test]
fn changes_tell_ids_and_tables() {
    let mut tx = Transaction::new();
    let other = (OTHER_TABLE, 8);
    tx.write(false, ID, None, Some(document(ID, 1, 10))).unwrap();
    tx.write(true, other, Some(document(other, 1, 10)), None)
        .unwrap();
    tx.write(false, ID, Some(document(ID, 1, 10)), None).unwrap();
    let inserted: BTreeSet<ResolvedDocumentId> = tx
        .writes
        .coalesced_writes()
        .filter(|(_, update)| update.old_document.is_none())
        .map(|(id, _)| *id)
        .collect();
    assert_eq!(inserted, tx.writes.generated_ids);
    for (id, update) in tx.writes.coalesced_writes() {
        assert!(tx.writes.has_written_to(&id.0));
        assert_eq!(update.id, *id);
    }
}

#[test]
fn room_is_needed_only_for_counted_writes() {
    let mut tx = Transaction::new();
    tx.limits.max_user_write_size_bytes = usize::MAX;
    let has_room = |tx: &Transaction, is_system, id, table_id_value, new_size| {
        tx.writes.has_room_for(
            TABLES,
            &tx.limits,
            is_system,
            id,
            &DocumentIdEncoding {
                size: 4,
                table_id_value,
            },
            &DocumentUpdate {
                id,
                old_document: None,
                new_document: Some(document(id, 1, new_size)),
            },
        )
    };
    let other = (TABLE, 8);
    assert!(has_room(&tx, false, ID, Ok(value(1)), usize::MAX - 4));
    assert!(!has_room(&tx, false, ID, Ok(value(1)), usize::MAX - 3));
    tx.write(false, ID, None, Some(document(ID, 1, usize::MAX - 4)))
        .unwrap();
    assert_eq!(*tx.writes.user_size(), size(1, usize::MAX));
    // The counter for user documents is full, that for system documents is not.
    assert!(!has_room(&tx, false, other, Ok(value(1)), 0));
    assert!(has_room(&tx, true, other, Ok(value(1)), 10));
    // Writes that are refused before they are counted need no room.
    assert!(has_room(&tx, false, ID, Ok(value(1)), 0));
    assert_eq!(
        tx.write(false, ID, None, Some(document(ID, 1, 0))),
        Err(WriteError::DuplicateInsert)
    );
    assert!(has_room(&tx, false, other, Err("too long".to_string()), 0));
    let metadata = (TABLES.index_id, 8);
    assert!(!has_room(&tx, false, metadata, Err("too long".to_string()), 0));
    tx.writes.register_new_id(&mut tx.reads, other).unwrap();
    assert!(has_room(&tx, false, other, Ok(value(1)), 0));
    assert_eq!(
        tx.write(false, other, None, Some(document(other, 1, 0))),
        Err(WriteError::DuplicateId { document_id: other })
    );
}

#[test]
fn registered_ids_leave_the_written_tables() {
    let mut tx = Transaction::new();
    let other = (OTHER_TABLE, 8);
    tx.writes.register_new_id(&mut tx.reads, other).unwrap();
    tx.write(false, ID, None, Some(document(ID, 1, 10))).unwrap();
    assert!(tx.writes.has_written_to(&TABLE));
    assert!(!tx.writes.has_written_to(&OTHER_TABLE));
    assert_eq!(tx.writes.generated_ids, BTreeSet::from([ID, other]));
}

#[test]
fn ordered_objects_are_equal_by_their_values() {
    let object = |fields: &[(&str, u8)]| ConvexObject {
        fields: fields
            .iter()
            .map(|(name, byte)| (name.to_string(), value(*byte)))
            .collect(),
        size: 10,
    };
    let a = object(&[("a", 1), ("ab", 2), ("b", 3)]);
    let b = object(&[("a", 1), ("ab", 2), ("b", 3)]);
    let c = object(&[("a", 1), ("ab", 4), ("b", 3)]);
    assert_eq!(a, b);
    assert_ne!(a, c);
    assert_eq!(a.get(&"ab".to_string()), Some(&value(2)));
    assert_eq!(c.get(&"ab".to_string()), Some(&value(4)));
    assert_eq!(a.get(&"abc".to_string()), None);
}
