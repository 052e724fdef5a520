//! The error model of the bridge.
//!
//! Engine-level failures reach this core only as plain text: the embedding
//! layer turns its driver errors into `Sql` or `Migration` before any verified
//! function sees them.

use vstd::prelude::*;

verus! {

use vstd::string::StringExecFns;

/// Every failure the bridge can report.
#[derive(Debug, Clone)]
pub enum Error {
    /// An engine-level execution or connection failure, carried as its text.
    Sql(String),
    /// A failure while applying a migration batch, carried as its text.
    Migration(String),
    /// A malformed logical connection string.
    InvalidDbUrl(String),
    /// An operation referenced an identifier with no open pool.
    DatabaseNotLoaded(String),
    /// A column or value could not be represented in the dynamic value model.
    UnsupportedDatatype(String),
}

impl Error {
    /// The human-readable message of this error, one line per kind.
    pub fn message(&self) -> (r: String)
        ensures
            r@ == self.spec_message(),
    {
        match self {
            Error::Sql(s) => s.clone(),
            Error::Migration(s) => s.clone(),
            Error::InvalidDbUrl(s) => {
                String::from_str("invalid connection url: ").concat(s.as_str())
            },
            Error::DatabaseNotLoaded(s) => {
                String::from_str("database ").concat(s.as_str()).concat(" not loaded")
            },
            Error::UnsupportedDatatype(s) => {
                String::from_str("unsupported datatype: ").concat(s.as_str())
            },
        }
    }

    /// What `message` returns, as a sequence of characters.
    pub open spec fn spec_message(&self) -> Seq<char> {
        match self {
            Error::Sql(s) => s@,
            Error::Migration(s) => s@,
            Error::InvalidDbUrl(s) => "invalid connection url: "@ + s@,
            Error::DatabaseNotLoaded(s) => "database "@ + s@ + " not loaded"@,
            Error::UnsupportedDatatype(s) => "unsupported datatype: "@ + s@,
        }
    }
}

} // verus!
