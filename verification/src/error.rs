//! The error type of the store and the messages it reports.

use vstd::prelude::*;
use crate::text::{decimal, u8_to_decimal};

verus! {

/// What can go wrong in an operation of the store.
///
/// The variants that carry a `message` hold the text the storage engine gave for
/// its own failure.
#[derive(Debug, Clone, PartialEq, Eq)]
pub enum DbError {
    /// The database path is absolute or climbs out of the base directory.
    InvalidPath { path: String },
    /// The key already holds data of a lower level and the write was not forced.
    LevelConflict { new_lv: u8, old_lv: u8 },
    /// The storage engine refused an operation.
    Storage { message: String },
    /// Reading one of the keys found by a prefix search failed.
    GetKey { message: String },
    /// The iterator of a prefix search ended in an error.
    Iterator { message: String },
}

/// The message that `err` reports, as text.
pub open spec fn error_message(err: DbError) -> Seq<char> {
    match err {
        DbError::InvalidPath { path } => "invalid db path: "@ + path@,
        DbError::LevelConflict { new_lv, old_lv } =>
            "can't put data with level "@ + decimal(new_lv as nat) + " which exists with level "@
                + decimal(old_lv as nat) + " without force"@,
        DbError::Storage { message } => message@,
        DbError::GetKey { message } => "database get key error: "@ + message@,
        DbError::Iterator { message } => "iterator error: "@ + message@,
    }
}

impl DbError {
    /// The human-readable message of this error.
    pub fn message(&self) -> (s: String)
        ensures
            s@ == error_message(*self),
    {
        match self {
            DbError::InvalidPath { path } => {
                let mut s = String::from_str("invalid db path: ");
                s.append(path.as_str());
                s
            },
            DbError::LevelConflict { new_lv, old_lv } => {
                let mut s = String::from_str("can't put data with level ");
                s.append(u8_to_decimal(*new_lv).as_str());
                s.append(" which exists with level ");
                s.append(u8_to_decimal(*old_lv).as_str());
                s.append(" without force");
                s
            },
            DbError::Storage { message } => message.clone(),
            DbError::GetKey { message } => {
                let mut s = String::from_str("database get key error: ");
                s.append(message.as_str());
                s
            },
            DbError::Iterator { message } => {
                let mut s = String::from_str("iterator error: ");
                s.append(message.as_str());
                s
            },
        }
    }
}

} // verus!
