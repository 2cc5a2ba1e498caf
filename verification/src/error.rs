//! The failures of the store, and a helper for optional fallible values.

use vstd::prelude::*;

verus! {

/// Why a store operation failed. Every failure ends the operation; nothing
/// is retried and nothing is reported as half done.
#[derive(Debug)]
pub enum StoreError {
    /// The exclusive lock on the backing file could not be taken or given back.
    Lock(String),
    /// The backing file could not be created or opened.
    Io(String),
    /// The tracking table could not be read or created, or a pending script failed.
    Migration(String),
    /// A read of the path table failed.
    Query(String),
    /// A change to the path table failed.
    Write(String),
    /// The wall clock reads a time that cannot be expressed as epoch milliseconds.
    Clock,
}

impl StoreError {
    /// The text that came with the failure; empty where there is none.
    pub fn message(&self) -> (r: String)
        ensures
            r@ == self.detail(),
    {
        match self {
            StoreError::Lock(m) => m.clone(),
            StoreError::Io(m) => m.clone(),
            StoreError::Migration(m) => m.clone(),
            StoreError::Query(m) => m.clone(),
            StoreError::Write(m) => m.clone(),
            StoreError::Clock => String::new(),
        }
    }

    /// The characters of the text carried by the failure.
    pub open spec fn detail(&self) -> Seq<char> {
        match self {
            StoreError::Lock(m) => m@,
            StoreError::Io(m) => m@,
            StoreError::Migration(m) => m@,
            StoreError::Query(m) => m@,
            StoreError::Write(m) => m@,
            StoreError::Clock => Seq::empty(),
        }
    }
}

/// The part of the store's work that a call into the database serves. It
/// decides which failure a refused call becomes.
#[derive(Debug, Clone, Copy, PartialEq, Eq, Structural)]
pub enum Purpose {
    /// Bringing the schema up to date.
    Migration,
    /// Reading the path table.
    Query,
    /// Changing the path table.
    Write,
}

impl Purpose {
    /// The failure is of the kind that belongs to the purpose.
    pub open spec fn names(self, error: StoreError) -> bool {
        match self {
            Purpose::Migration => error is Migration,
            Purpose::Query => error is Query,
            Purpose::Write => error is Write,
        }
    }

    /// The failure of work for the purpose, with the text that tells of it.
    pub fn failure(self, text: String) -> (error: StoreError)
        ensures
            self.names(error),
            error.detail() == text@,
    {
        match self {
            Purpose::Migration => StoreError::Migration(text),
            Purpose::Query => StoreError::Query(text),
            Purpose::Write => StoreError::Write(text),
        }
    }
}

/// Turns an optional fallible value inside out: an absent value is a
/// success carrying nothing, a present success stays a success, and a
/// present failure becomes the failure of the whole.
pub fn transpose<T, E>(v: Option<Result<T, E>>) -> (r: Result<Option<T>, E>)
    ensures
        r == match v {
            None => Ok::<Option<T>, E>(None),
            Some(Ok(t)) => Ok(Some(t)),
            Some(Err(e)) => Err(e),
        },
{
    match v {
        Some(Ok(t)) => Ok(Some(t)),
        Some(Err(e)) => Err(e),
        None => Ok(None),
    }
}

} // verus!
