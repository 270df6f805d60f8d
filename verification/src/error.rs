//! The ways in which an operation on the timetable can fail.

use vstd::prelude::*;

verus! {

/// Why an operation failed. Every failure carries a message for the person
/// in front of the application; nothing is retried.
#[derive(Debug)]
pub enum StoreError {
    /// No entry carries the identifier that an update or a removal named.
    NotFound,
    /// A file could not be read or written.
    Io(String),
    /// The collection could not be encoded or decoded.
    Serialization(String),
    /// The CSV text holds a record that cannot be read.
    Parse(String),
}

/// What is said when no entry carries the identifier asked for.
pub open spec fn not_found_text() -> Seq<char> {
    "课程不存在"@
}

impl StoreError {
    /// The message of this failure as a value.
    pub open spec fn message_view(&self) -> Seq<char> {
        match self {
            StoreError::NotFound => not_found_text(),
            StoreError::Io(m) => m@,
            StoreError::Serialization(m) => m@,
            StoreError::Parse(m) => m@,
        }
    }

    /// The human-readable message of this failure.
    pub fn message(&self) -> (r: String)
        ensures
            r@ == self.message_view(),
    {
        match self {
            StoreError::NotFound => String::from_str("课程不存在"),
            StoreError::Io(m) => m.clone(),
            StoreError::Serialization(m) => m.clone(),
            StoreError::Parse(m) => m.clone(),
        }
    }
}

impl PartialEq for StoreError {
    fn eq(&self, other: &StoreError) -> (r: bool) {
        match (self, other) {
            (StoreError::NotFound, StoreError::NotFound) => true,
            (StoreError::Io(a), StoreError::Io(b)) => *a == *b,
            (StoreError::Serialization(a), StoreError::Serialization(b)) => *a == *b,
            (StoreError::Parse(a), StoreError::Parse(b)) => *a == *b,
            _ => false,
        }
    }
}

impl vstd::std_specs::cmp::PartialEqSpecImpl for StoreError {
    open spec fn obeys_eq_spec() -> bool {
        true
    }

    open spec fn eq_spec(&self, other: &StoreError) -> bool {
        match (self, other) {
            (StoreError::NotFound, StoreError::NotFound) => true,
            (StoreError::Io(a), StoreError::Io(b)) => a@ == b@,
            (StoreError::Serialization(a), StoreError::Serialization(b)) => a@ == b@,
            (StoreError::Parse(a), StoreError::Parse(b)) => a@ == b@,
            _ => false,
        }
    }
}

impl Eq for StoreError {

}

/// Joins the fixed opening of a message and the detail that follows it.
pub fn describe(opening: &str, detail: &str) -> (r: String)
    ensures
        r@ == opening@ + detail@,
{
    let mut text = String::from_str(opening);
    text.append(detail);
    text
}

} // verus!
