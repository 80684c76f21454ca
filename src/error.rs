//! Errors of the data-access layer.

use vstd::prelude::*;
use crate::sql::{DbError, DbErrorKind};
use crate::fields::WebId;

verus! {

/// Why a row could not be read into an entity.
#[derive(Debug, Clone, Copy, PartialEq, Eq, Structural)]
pub enum DecodeReason {
    /// The row has no column of that name.
    Missing,
    /// The column holds a value of another type.
    InvalidType,
    /// The column's text is not in the expected format.
    InvalidText,
}

/// Errors of the model layer.
#[derive(Debug, Clone)]
pub enum Error {
    /// A get or delete by primary key found no row.
    EntityNotFound { entity: String, id: i64 },
    /// No plan has this public slug.
    PlanUrlNotFound { url_id: String },
    /// No user has this external identifier.
    UserWebIdNotFound { web_id: WebId },
    /// A text field is longer than its column allows; nothing was sent.
    InputTooLong { field: String, max: usize },
    /// A row could not be read into the entity.
    Decode { column: String, reason: DecodeReason },
    /// The database refused or failed the statement.
    Query(DbError),
    /// An insert gave back no row.
    NoRowReturned,
    /// The database answered a statement with a result of another kind.
    UnexpectedOutcome,
    /// The clock gave an instant without an RFC 3339 form.
    TimeFormat,
}

/// The mathematical form of an error.
pub enum ErrorV {
    EntityNotFound { entity: Seq<char>, id: i64 },
    PlanUrlNotFound { url_id: Seq<char> },
    UserWebIdNotFound { web_id: u128 },
    InputTooLong { field: Seq<char>, max: usize },
    Decode { column: Seq<char>, reason: DecodeReason },
    Query(DbErrorKind),
    NoRowReturned,
    UnexpectedOutcome,
    TimeFormat,
}

impl View for Error {
    type V = ErrorV;

    open spec fn view(&self) -> ErrorV {
        match self {
            Error::EntityNotFound { entity, id } => ErrorV::EntityNotFound {
                entity: entity@,
                id: *id,
            },
            Error::PlanUrlNotFound { url_id } => ErrorV::PlanUrlNotFound { url_id: url_id@ },
            Error::UserWebIdNotFound { web_id } => ErrorV::UserWebIdNotFound {
                web_id: web_id.value,
            },
            Error::InputTooLong { field, max } => ErrorV::InputTooLong { field: field@, max: *max },
            Error::Decode { column, reason } => ErrorV::Decode { column: column@, reason: *reason },
            Error::Query(e) => ErrorV::Query(e.kind),
            Error::NoRowReturned => ErrorV::NoRowReturned,
            Error::UnexpectedOutcome => ErrorV::UnexpectedOutcome,
            Error::TimeFormat => ErrorV::TimeFormat,
        }
    }
}

/// The view of a result whose success value is a plain value.
pub open spec fn plain_result<T>(r: Result<T, Error>) -> Result<T, ErrorV> {
    match r {
        Ok(v) => Ok(v),
        Err(e) => Err(e@),
    }
}

} // verus!
