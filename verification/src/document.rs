//! Documents, and the changes that a transaction makes to them.

use crate::ids::ResolvedDocumentId;
use vstd::prelude::*;

verus! {

/// A value of a document, held as the bytes under which indexes store it.
///
/// Of these bytes it is assumed that two values are equal if and only if their
/// bytes are, and that no value's bytes are the beginning of another's. Then
/// index keys compare part by part as their bytes do.
#[derive(Debug)]
pub struct ConvexValue {
    pub bytes: Vec<u8>,
}

impl View for ConvexValue {
    type V = Seq<u8>;

    open spec fn view(&self) -> Seq<u8> {
        self.bytes@
    }
}

impl PartialEq for ConvexValue {
    fn eq(&self, other: &Self) -> (result: bool) {
        if self.bytes.len() != other.bytes.len() {
            return false;
        }
        let mut i: usize = 0;
        while i < self.bytes.len()
            invariant
                i <= self.bytes@.len(),
                self.bytes@.len() == other.bytes@.len(),
                forall|j: int| 0 <= j < i ==> self.bytes@[j] == other.bytes@[j],
            decreases self.bytes@.len() - i,
        {
            if self.bytes[i] != other.bytes[i] {
                return false;
            }
            i += 1;
        }
        assert(self.bytes@ =~= other.bytes@);
        true
    }
}

impl vstd::std_specs::cmp::PartialEqSpecImpl for ConvexValue {
    open spec fn obeys_eq_spec() -> bool {
        true
    }

    open spec fn eq_spec(&self, other: &Self) -> bool {
        self@ == other@
    }
}

impl Clone for ConvexValue {
    fn clone(&self) -> (result: Self)
        ensures
            result@ == self@,
    {
        ConvexValue { bytes: self.bytes.clone() }
    }
}

/// The value that the first field called `name` has, if there is one.
pub open spec fn lookup(fields: Seq<(Seq<char>, Seq<u8>)>, name: Seq<char>) -> Option<Seq<u8>>
    decreases fields.len(),
{
    if fields.len() == 0 {
        None
    } else if fields[0].0 == name {
        Some(fields[0].1)
    } else {
        lookup(fields.drop_first(), name)
    }
}

/// The order of field names: that of their first characters that differ, and
/// the beginning of a name before the name.
pub open spec fn name_precedes(a: Seq<char>, b: Seq<char>) -> bool
    decreases a.len(),
{
    if b.len() == 0 {
        false
    } else if a.len() == 0 {
        true
    } else if a[0] != b[0] {
        a[0] < b[0]
    } else {
        name_precedes(a.drop_first(), b.drop_first())
    }
}

/// Are the names of `fields` in strictly increasing order? Then no two fields
/// share a name.
pub open spec fn has_ordered_names(fields: Seq<(Seq<char>, Seq<u8>)>) -> bool {
    forall|i: int, j: int|
        0 <= i < j < fields.len() ==> name_precedes(
            (#[trigger] fields[i]).0,
            (#[trigger] fields[j]).0,
        )
}

/// The contents of a document: its fields, and the size in bytes that the
/// database reports for them when stored. Two objects whose fields are in
/// order (`well_formed`) are equal exactly if they give every name the same
/// value.
#[derive(Debug)]
pub struct ConvexObject {
    pub fields: Vec<(String, ConvexValue)>,
    pub size: usize,
}

impl View for ConvexObject {
    type V = Seq<(Seq<char>, Seq<u8>)>;

    open spec fn view(&self) -> Seq<(Seq<char>, Seq<u8>)> {
        self.fields@.map_values(|field: (String, ConvexValue)| (field.0@, field.1@))
    }
}

impl PartialEq for ConvexObject {
    /// Compares the fields, not the size that is reported for them.
    fn eq(&self, other: &Self) -> (result: bool) {
        if self.fields.len() != other.fields.len() {
            assert(self@.len() != other@.len());
            return false;
        }
        let mut i: usize = 0;
        while i < self.fields.len()
            invariant
                i <= self.fields@.len(),
                self.fields@.len() == other.fields@.len(),
                forall|j: int| 0 <= j < i ==> self@[j] == other@[j],
            decreases self.fields@.len() - i,
        {
            if self.fields[i].0 != other.fields[i].0 || self.fields[i].1 != other.fields[i].1 {
                assert(self@[i as int] != other@[i as int]);
                return false;
            }
            assert(self@[i as int] == other@[i as int]);
            i += 1;
        }
        assert(self@ =~= other@);
        true
    }
}

impl vstd::std_specs::cmp::PartialEqSpecImpl for ConvexObject {
    open spec fn obeys_eq_spec() -> bool {
        true
    }

    open spec fn eq_spec(&self, other: &Self) -> bool {
        self@ == other@
    }
}

impl Clone for ConvexObject {
    fn clone(&self) -> (result: Self)
        ensures
            result@ == self@,
            result.size == self.size,
    {
        let mut fields: Vec<(String, ConvexValue)> = Vec::new();
        let mut i: usize = 0;
        while i < self.fields.len()
            invariant
                i <= self.fields@.len(),
                fields@.len() == i,
                forall|j: int|
                    0 <= j < i ==> (#[trigger] fields@[j]).0@ == self.fields@[j].0@ && fields@[j].1@
                        == self.fields@[j].1@,
            decreases self.fields@.len() - i,
        {
            fields.push((self.fields[i].0.clone(), self.fields[i].1.clone()));
            i += 1;
        }
        let result = ConvexObject { fields, size: self.size };
        assert(result@ =~= self@);
        result
    }
}

impl ConvexObject {
    /// Are the fields in strictly increasing order of their names?
    pub open spec fn well_formed(self) -> bool {
        has_ordered_names(self@)
    }

    /// Returns the size in bytes that the object has when stored.
    pub fn size(&self) -> (result: usize)
        ensures
            result == self.size,
    {
        self.size
    }

    /// Returns the value of field `name`, if the object has that field.
    pub fn get(&self, name: &String) -> (result: Option<&ConvexValue>)
        ensures
            match result {
                Some(value) => lookup(self@, name@) == Some(value@),
                None => lookup(self@, name@) is None,
            },
    {
        let mut i: usize = 0;
        assert(self@.skip(0) =~= self@);
        while i < self.fields.len()
            invariant
                i <= self.fields@.len(),
                lookup(self@, name@) == lookup(self@.skip(i as int), name@),
            decreases self.fields@.len() - i,
        {
            assert(self@.skip(i as int)[0] == self@[i as int]);
            if self.fields[i].0 == *name {
                return Some(&self.fields[i].1);
            }
            assert(self@.skip(i as int).drop_first() =~= self@.skip(i + 1));
            i += 1;
        }
        None
    }
}

/// A document of the database.
#[derive(Debug)]
pub struct ResolvedDocument {
    pub id: ResolvedDocumentId,
    /// The bits of the time at which the document was created.
    pub creation_time: u64,
    pub value: ConvexObject,
}

impl PartialEq for ResolvedDocument {
    fn eq(&self, other: &Self) -> (result: bool) {
        let ((tablet_id, table_number), internal_id) = self.id;
        let ((other_tablet_id, other_table_number), other_internal_id) = other.id;
        tablet_id == other_tablet_id && table_number == other_table_number && internal_id
            == other_internal_id && self.creation_time == other.creation_time && self.value
            == other.value
    }
}

impl vstd::std_specs::cmp::PartialEqSpecImpl for ResolvedDocument {
    open spec fn obeys_eq_spec() -> bool {
        true
    }

    open spec fn eq_spec(&self, other: &Self) -> bool {
        &&& self.id == other.id
        &&& self.creation_time == other.creation_time
        &&& self.value@ == other.value@
    }
}

impl Clone for ResolvedDocument {
    fn clone(&self) -> (result: Self)
        ensures
            same_document(Some(result), Some(*self)),
            result.value.size == self.value.size,
    {
        ResolvedDocument {
            id: self.id,
            creation_time: self.creation_time,
            value: self.value.clone(),
        }
    }
}

impl ResolvedDocument {
    /// Returns the contents of the document.
    pub fn value(&self) -> (result: &ConvexObject)
        ensures
            *result == self.value,
    {
        &self.value
    }
}

/// A change to one document. Without an old document it is an insertion,
/// without a new one a deletion.
#[derive(Debug, PartialEq)]
pub struct DocumentUpdate {
    pub id: ResolvedDocumentId,
    pub old_document: Option<ResolvedDocument>,
    pub new_document: Option<ResolvedDocument>,
}

impl Clone for DocumentUpdate {
    fn clone(&self) -> (result: Self)
        ensures
            result.id == self.id,
            same_document(result.old_document, self.old_document),
            same_document(result.new_document, self.new_document),
            document_size(result.old_document) == document_size(self.old_document),
            document_size(result.new_document) == document_size(self.new_document),
    {
        DocumentUpdate {
            id: self.id,
            old_document: self.old_document.clone(),
            new_document: self.new_document.clone(),
        }
    }
}

/// Are `a` and `b` the same document, or both absent?
pub open spec fn same_document(a: Option<ResolvedDocument>, b: Option<ResolvedDocument>) -> bool {
    match (a, b) {
        (Some(x), Some(y)) => {
            &&& x.id == y.id
            &&& x.creation_time == y.creation_time
            &&& x.value@ == y.value@
        },
        (None, None) => true,
        _ => false,
    }
}

/// The size in bytes of the contents of `document`: none if it is absent.
pub open spec fn document_size(document: Option<ResolvedDocument>) -> nat {
    match document {
        Some(document) => document.value.size as nat,
        None => 0,
    }
}

/// The document that a write leaves behind, if it leaves one.
#[derive(Debug, PartialEq)]
pub struct DocumentWrite {
    pub document: Option<ResolvedDocument>,
}

impl Clone for DocumentWrite {
    fn clone(&self) -> (result: Self)
        ensures
            same_document(result.document, self.document),
            document_size(result.document) == document_size(self.document),
    {
        DocumentWrite { document: self.document.clone() }
    }
}

} // verus!
