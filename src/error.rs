//! The failures that a command can report.
use vstd::prelude::*;

verus! {

/// The three kinds under which failures reach a caller.
#[derive(Clone, Copy, Debug, PartialEq, Eq, Structural)]
pub enum ErrorKind {
    InvalidArgument,
    NotFound,
    Internal,
}

/// Why a command on the store failed.
#[derive(Clone, Copy, Debug, PartialEq, Eq, Structural)]
pub enum StoreError {
    /// A write that needs a value was given none.
    MissingValue,
    /// The key holds a value of another variant than the command needs.
    WrongType,
    /// A range bound is missing or unbounded.
    InvalidBound,
    /// The lower range bound is above the upper one.
    LowerAboveUpper,
    /// The key is absent.
    KeyNotFound,
    /// The sub-key is absent from the dictionary.
    SubKeyNotFound,
    /// The deque holds nothing to pop.
    EmptyDeque,
}

impl StoreError {
    pub open spec fn spec_kind(self) -> ErrorKind {
        match self {
            StoreError::MissingValue | StoreError::WrongType | StoreError::InvalidBound
            | StoreError::LowerAboveUpper => ErrorKind::InvalidArgument,
            StoreError::KeyNotFound | StoreError::SubKeyNotFound | StoreError::EmptyDeque =>
                ErrorKind::NotFound,
        }
    }

    /// The kind under which this failure is reported.
    pub fn kind(&self) -> (r: ErrorKind)
        ensures
            r == self.spec_kind(),
    {
        match self {
            StoreError::MissingValue | StoreError::WrongType | StoreError::InvalidBound
            | StoreError::LowerAboveUpper => ErrorKind::InvalidArgument,
            StoreError::KeyNotFound | StoreError::SubKeyNotFound | StoreError::EmptyDeque =>
                ErrorKind::NotFound,
        }
    }

    /// A short human-readable description.
    pub fn message(&self) -> &'static str {
        match self {
            StoreError::MissingValue => "the value missing",
            StoreError::WrongType => "invalid type",
            StoreError::InvalidBound => "invalid bound",
            StoreError::LowerAboveUpper => "lower > upper",
            StoreError::KeyNotFound => "no value found",
            StoreError::SubKeyNotFound => "no value found for the sub-key",
            StoreError::EmptyDeque => "the queue is empty",
        }
    }
}

} // verus!
