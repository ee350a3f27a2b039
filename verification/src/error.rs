//! Why a write is refused.

use crate::decimal::{append_decimal, decimal};
use crate::ids::ResolvedDocumentId;
use vstd::prelude::*;
use vstd::string::StringExecFns;

verus! {

/// Why a write is refused.
#[derive(Debug, PartialEq, Eq)]
pub enum WriteError {
    /// A document is inserted that the transaction has already written.
    DuplicateInsert,
    /// A document id is allocated that the transaction has already allocated.
    DuplicateId { document_id: ResolvedDocumentId },
    /// The tablet's id has no form that index metadata can hold, for this reason.
    TabletIdNotSerialized { reason: String },
    /// The transaction makes this many writes to system documents: too many.
    TooManySystemWrites { num_writes: usize },
    /// The transaction writes this many bytes in system tables: too many.
    TooManySystemBytes { size: usize },
    /// The transaction makes more writes to user documents than this limit.
    TooManyWrites { limit: usize },
    /// The transaction writes more bytes to user documents than this limit.
    TooManyBytesWritten { limit: usize },
    /// The document that the update replaces is not the one last written.
    InconsistentUpdate,
}

impl WriteError {
    /// The code of an error that developers cause by writing too much.
    pub open spec fn pagination_limit_code(self) -> Option<Seq<char>> {
        match self {
            WriteError::TooManyWrites { .. } => Some("TooManyWrites"@),
            WriteError::TooManyBytesWritten { .. } => Some("TooManyBytesWritten"@),
            _ => None,
        }
    }

    /// Returns the code of an error that developers cause by writing too
    /// much. The other errors are the system's own and have no code.
    pub fn pagination_limit(&self) -> (result: Option<&'static str>)
        ensures
            match result {
                Some(code) => self.pagination_limit_code() == Some(code@),
                None => self.pagination_limit_code() is None,
            },
    {
        match self {
            WriteError::TooManyWrites { .. } => Some("TooManyWrites"),
            WriteError::TooManyBytesWritten { .. } => Some("TooManyBytesWritten"),
            _ => None,
        }
    }

    /// The text of the error, with `document_id` for the document that it is about.
    pub open spec fn text(self, document_id: Seq<char>) -> Seq<char> {
        match self {
            WriteError::DuplicateInsert => "Duplicate insert"@,
            WriteError::DuplicateId { .. } => "Transaction allocated the same DocumentId twice: "@
                + document_id,
            WriteError::TabletIdNotSerialized { reason } => reason@,
            WriteError::TooManySystemWrites { num_writes } =>
            "Too many system document writes in a single transaction: "@ + decimal(
                num_writes as nat,
            ),
            WriteError::TooManySystemBytes { size } =>
            "Too many bytes written in system tables in a single transaction: "@ + decimal(
                size as nat,
            ),
            WriteError::TooManyWrites { limit } =>
            "Too many writes in a single function execution (limit: "@ + decimal(limit as nat)
                + ")"@,
            WriteError::TooManyBytesWritten { limit } =>
            "Too many bytes written in a single function execution (limit: "@ + decimal(
                limit as nat,
            ) + " bytes)"@,
            WriteError::InconsistentUpdate =>
            "Inconsistent update: The old update's new document does not match the new document's old update"@,
        }
    }

    /// Returns the text of the error, with `document_id` for the document
    /// that it is about.
    pub fn message(&self, document_id: &str) -> (result: String)
        ensures
            result@ == self.text(document_id@),
    {
        match self {
            WriteError::DuplicateInsert => "Duplicate insert".to_owned(),
            WriteError::DuplicateId { .. } => {
                let mut text = "Transaction allocated the same DocumentId twice: ".to_owned();
                text.append(document_id);
                text
            },
            WriteError::TabletIdNotSerialized { reason } => reason.clone(),
            WriteError::TooManySystemWrites { num_writes } => {
                let mut text =
                    "Too many system document writes in a single transaction: ".to_owned();
                append_decimal(&mut text, *num_writes);
                text
            },
            WriteError::TooManySystemBytes { size } => {
                let mut text =
                    "Too many bytes written in system tables in a single transaction: ".to_owned();
                append_decimal(&mut text, *size);
                text
            },
            WriteError::TooManyWrites { limit } => {
                let mut text =
                    "Too many writes in a single function execution (limit: ".to_owned();
                append_decimal(&mut text, *limit);
                text.append(")");
                text
            },
            WriteError::TooManyBytesWritten { limit } => {
                let mut text =
                    "Too many bytes written in a single function execution (limit: ".to_owned();
                append_decimal(&mut text, *limit);
                text.append(" bytes)");
                text
            },
            WriteError::InconsistentUpdate => {
                "Inconsistent update: The old update's new document does not match the new document's old update".to_owned()
            },
        }
    }
}

} // verus!
