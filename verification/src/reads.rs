//! The reads on which a transaction depends.

use crate::document::{lookup, ConvexValue, ResolvedDocument};
use crate::ids::{developer_id, developer_id_of, DeveloperDocumentId, TabletId};
use vstd::prelude::*;

verus! {

/// The name of an index: the tablet that it indexes, and what it is called there.
#[derive(Debug, PartialEq, Eq)]
pub struct TabletIndexName {
    pub table: TabletId,
    pub descriptor: String,
}

impl TabletIndexName {
    /// Returns the name of the index `descriptor` on `table`.
    pub fn new(table: TabletId, descriptor: &str) -> (result: Self)
        ensures
            result.table == table,
            result.descriptor@ == descriptor@,
    {
        TabletIndexName { table, descriptor: descriptor.to_owned() }
    }

    /// Returns the name of the index of `table` by document id.
    pub fn by_id(table: TabletId) -> (result: Self)
        ensures
            result.table == table,
            result.descriptor@ == "by_id"@,
    {
        TabletIndexName::new(table, "by_id")
    }
}

/// The fields by which an index orders documents, before it orders them by id.
#[derive(Debug, PartialEq, Eq)]
pub struct IndexedFields {
    pub fields: Vec<String>,
}

impl View for IndexedFields {
    type V = Seq<Seq<char>>;

    open spec fn view(&self) -> Seq<Seq<char>> {
        self.fields@.map_values(|field: String| field@)
    }
}

impl IndexedFields {
    /// Returns the fields of an index by document id: none.
    pub fn by_id() -> (result: Self)
        ensures
            result@ == Seq::<Seq<char>>::empty(),
    {
        let result = IndexedFields { fields: Vec::new() };
        assert(result@ =~= Seq::<Seq<char>>::empty());
        result
    }

    /// Returns the fields of an index by the one field `name`.
    pub fn single(name: &str) -> (result: Self)
        ensures
            result@ == seq![name@],
    {
        let mut fields: Vec<String> = Vec::new();
        fields.push(name.to_owned());
        let result = IndexedFields { fields };
        assert(result@ =~= seq![name@]);
        result
    }
}

/// One part of an index key. Keys are sequences of parts, compared part by
/// part. For keys that are stored as bytes this assumes that no part is stored
/// as the beginning of another.
#[derive(Debug, PartialEq)]
pub enum KeyPart {
    /// The value of an indexed field, or that the document lacks the field.
    Value(Option<ConvexValue>),
    /// The id of the document.
    Id(DeveloperDocumentId),
}

/// What a `KeyPart` stands for.
pub enum KeyPartView {
    Value(Option<Seq<u8>>),
    Id(DeveloperDocumentId),
}

impl View for KeyPart {
    type V = KeyPartView;

    open spec fn view(&self) -> KeyPartView {
        match self {
            KeyPart::Value(Some(value)) => KeyPartView::Value(Some(value@)),
            KeyPart::Value(None) => KeyPartView::Value(None),
            KeyPart::Id(id) => KeyPartView::Id(*id),
        }
    }
}

/// The key under which an index over `fields` holds `document`: the values of
/// these fields, then the document's id.
pub open spec fn index_key(document: ResolvedDocument, fields: Seq<Seq<char>>) -> Seq<KeyPartView> {
    fields.map_values(
        |field: Seq<char>| KeyPartView::Value(lookup(document.value@, field)),
    ).push(KeyPartView::Id(developer_id_of(document.id)))
}

/// A range of index keys.
#[derive(Debug, PartialEq)]
pub enum Interval {
    /// Every key.
    All,
    /// The keys that begin with these parts.
    Prefix(Vec<KeyPart>),
}

/// What an `Interval` stands for.
pub enum IntervalView {
    All,
    Prefix(Seq<KeyPartView>),
}

impl View for Interval {
    type V = IntervalView;

    open spec fn view(&self) -> IntervalView {
        match self {
            Interval::All => IntervalView::All,
            Interval::Prefix(parts) => IntervalView::Prefix(
                parts@.map_values(|part: KeyPart| part@),
            ),
        }
    }
}

impl IntervalView {
    /// Does the interval hold `key`?
    pub open spec fn contains(self, key: Seq<KeyPartView>) -> bool {
        match self {
            IntervalView::All => true,
            IntervalView::Prefix(parts) => parts.is_prefix_of(key),
        }
    }
}

impl Interval {
    /// Returns the interval of every key.
    pub fn all() -> (result: Self)
        ensures
            result@ == IntervalView::All,
    {
        Interval::All
    }

    /// Returns the interval of the keys that begin with `part`.
    pub fn prefix(part: KeyPart) -> (result: Self)
        ensures
            result@ == IntervalView::Prefix(seq![part@]),
    {
        let mut parts: Vec<KeyPart> = Vec::new();
        parts.push(part);
        let result = Interval::Prefix(parts);
        assert(parts@.map_values(|part: KeyPart| part@) =~= seq![part@]);
        result
    }
}

/// One read: an interval of the keys of one index.
#[derive(Debug, PartialEq)]
pub struct IndexRead {
    pub index_name: TabletIndexName,
    pub fields: IndexedFields,
    pub interval: Interval,
}

/// What an `IndexRead` stands for.
pub struct IndexReadView {
    pub table: TabletId,
    pub descriptor: Seq<char>,
    pub fields: Seq<Seq<char>>,
    pub interval: IntervalView,
}

impl View for IndexRead {
    type V = IndexReadView;

    open spec fn view(&self) -> IndexReadView {
        IndexReadView {
            table: self.index_name.table,
            descriptor: self.index_name.descriptor@,
            fields: self.fields@,
            interval: self.interval@,
        }
    }
}

impl IndexReadView {
    /// Does the read see `document`? It does if the document is in the table
    /// that was read, and its key is in the interval that was read.
    pub open spec fn covers(self, document: ResolvedDocument) -> bool {
        let ((tablet_id, _), _) = document.id;
        &&& self.table == tablet_id
        &&& self.interval.contains(index_key(document, self.fields))
    }
}

/// Does one of `reads` see `document`? Then a parallel commit that changes
/// the document conflicts with the transaction that made these reads.
pub open spec fn conflicts(reads: Seq<IndexReadView>, document: ResolvedDocument) -> bool {
    exists|i: int| 0 <= i < reads.len() && (#[trigger] reads[i]).covers(document)
}

impl KeyPart {
    /// Is this the part at `position` of the key of `document` under `fields`?
    fn is_at(
        &self,
        position: usize,
        document: &ResolvedDocument,
        fields: &IndexedFields,
    ) -> (result: bool)
        ensures
            result == {
                let key = index_key(*document, fields@);
                position < key.len() && self@ == key[position as int]
            },
    {
        if position < fields.fields.len() {
            assert(fields@[position as int] == fields.fields@[position as int]@);
            let found = document.value.get(&fields.fields[position]);
            match self {
                KeyPart::Value(Some(value)) => match found {
                    Some(other) => *value == *other,
                    None => false,
                },
                KeyPart::Value(None) => found.is_none(),
                KeyPart::Id(_) => false,
            }
        } else if position == fields.fields.len() {
            let (table_number, internal_id) = developer_id(document.id);
            match self {
                KeyPart::Value(_) => false,
                KeyPart::Id(id) => id.0 == table_number && id.1 == internal_id,
            }
        } else {
            false
        }
    }
}

impl Interval {
    /// Does the interval hold the key of `document` under `fields`?
    fn contains_key_of(&self, document: &ResolvedDocument, fields: &IndexedFields) -> (result: bool)
        ensures
            result == self@.contains(index_key(*document, fields@)),
    {
        match self {
            Interval::All => true,
            Interval::Prefix(parts) => {
                let ghost key = index_key(*document, fields@);
                let ghost prefix = parts@.map_values(|part: KeyPart| part@);
                let mut i: usize = 0;
                while i < parts.len()
                    invariant
                        i <= parts@.len(),
                        i <= key.len(),
                        self@ == IntervalView::Prefix(prefix),
                        key == index_key(*document, fields@),
                        prefix == parts@.map_values(|part: KeyPart| part@),
                        forall|j: int| 0 <= j < i ==> prefix[j] == key[j],
                    decreases parts@.len() - i,
                {
                    if !parts[i].is_at(i, document, fields) {
                        assert(!prefix.is_prefix_of(key)) by {
                            if prefix.is_prefix_of(key) {
                                assert(prefix[i as int] == key[i as int]);
                            }
                        }
                        return false;
                    }
                    i += 1;
                }
                assert(prefix =~= key.subrange(0, prefix.len() as int));
                true
            },
        }
    }
}

/// The reads of a transaction, in the order in which they were made.
#[derive(Debug, PartialEq)]
pub struct TransactionReadSet {
    pub reads: Vec<IndexRead>,
}

impl View for TransactionReadSet {
    type V = Seq<IndexReadView>;

    open spec fn view(&self) -> Seq<IndexReadView> {
        self.reads@.map_values(|read: IndexRead| read@)
    }
}

impl TransactionReadSet {
    /// Creates a read set without reads.
    pub fn new() -> (result: Self)
        ensures
            result@ == Seq::<IndexReadView>::empty(),
    {
        let result = TransactionReadSet { reads: Vec::new() };
        assert(result@ =~= Seq::<IndexReadView>::empty());
        result
    }

    /// Records a read that some other operation of the transaction entails.
    pub fn record_indexed_derived(
        &mut self,
        index_name: TabletIndexName,
        fields: IndexedFields,
        interval: Interval,
    )
        ensures
            final(self)@ == old(self)@.push(
                IndexReadView {
                    table: index_name.table,
                    descriptor: index_name.descriptor@,
                    fields: fields@,
                    interval: interval@,
                },
            ),
    {
        self.reads.push(IndexRead { index_name, fields, interval });
        assert(self@ =~= old(self)@.push(self.reads@.last()@));
    }

    /// Returns the first read that sees `document`, if one does.
    pub fn overlaps(&self, document: &ResolvedDocument) -> (result: Option<&IndexRead>)
        ensures
            result is Some <==> conflicts(self@, *document),
            match result {
                Some(read) => exists|i: int|
                    {
                        &&& 0 <= i < self@.len()
                        &&& self.reads@[i] == *read
                        &&& (#[trigger] self@[i]).covers(*document)
                        &&& forall|j: int|
                            0 <= j < i ==> !(#[trigger] self@[j]).covers(*document)
                    },
                None => true,
            },
    {
        let mut i: usize = 0;
        while i < self.reads.len()
            invariant
                i <= self.reads@.len(),
                forall|j: int| 0 <= j < i ==> !(#[trigger] self@[j]).covers(*document),
            decreases self.reads@.len() - i,
        {
            let read = &self.reads[i];
            assert(self@[i as int] == read@);
            let ((tablet_id, _), _) = document.id;
            if read.index_name.table == tablet_id && read.interval.contains_key_of(
                document,
                &read.fields,
            ) {
                return Some(read);
            }
            i += 1;
        }
        None
    }
}

} // verus!
