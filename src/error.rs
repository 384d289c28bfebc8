use vstd::prelude::*;

verus! {

/// The errors that the store and the replication layer report.
#[derive(Debug, PartialEq, Eq)]
pub enum StoreError {
    /// A connection or transport failure, with its description.
    IoError(String),
    /// Malformed persisted or propagated data.
    SerializationError(String),
    /// An operation requested in the wrong role, or a malformed operation text.
    ReplicationError(String),
}

pub type Result<T> = core::result::Result<T, StoreError>;

/// The text that describes an error: its kind, then its detail.
pub open spec fn error_text(e: StoreError) -> Seq<char> {
    match e {
        StoreError::IoError(m) => "I/O error: "@ + m@,
        StoreError::SerializationError(m) => "Serialization error: "@ + m@,
        StoreError::ReplicationError(m) => "Replication error: "@ + m@,
    }
}

impl StoreError {
    /// The description of the error: its kind, then its detail.
    pub fn to_string(&self) -> (r: String)
        ensures
            r@ == error_text(*self),
    {
        let (mut head, detail) = match self {
            StoreError::IoError(m) => (String::from_str("I/O error: "), m),
            StoreError::SerializationError(m) => (String::from_str("Serialization error: "), m),
            StoreError::ReplicationError(m) => (String::from_str("Replication error: "), m),
        };
        head.append(detail.as_str());
        head
    }
}

} // verus!
