//! The value held under a key: one of four variants, with variant-checked
//! access.
use std::collections::VecDeque;

use prost_types::Value;
use vstd::prelude::*;

use crate::error::StoreError;
use crate::sorted_map::{KeyMap, KeySet};

verus! {

/// A stored value.
pub enum Val {
    /// One opaque payload.
    Var(Value),
    /// Payloads under sub-keys.
    Dict(KeyMap<Value>),
    /// Members without duplicates.
    Members(KeySet),
    /// Payloads in insertion order, open at both ends.
    Deq(VecDeque<Value>),
}

/// The mathematical content of a stored value.
pub enum Entry {
    Scalar(Value),
    Dictionary(Map<Seq<u8>, Value>),
    Members(Set<Seq<u8>>),
    Deque(Seq<Value>),
}

impl View for Val {
    type V = Entry;

    open spec fn view(&self) -> Entry {
        match self {
            Val::Var(v) => Entry::Scalar(*v),
            Val::Dict(m) => Entry::Dictionary(m@),
            Val::Members(s) => Entry::Members(s@),
            Val::Deq(q) => Entry::Deque(q@),
        }
    }
}

impl Val {
    /// The containers inside are well formed.
    pub open spec fn wf(&self) -> bool {
        match self {
            Val::Dict(m) => m.wf(),
            Val::Members(s) => s.wf(),
            _ => true,
        }
    }

    /// The payload of a scalar.
    pub fn as_scalar(&self) -> (r: Result<&Value, StoreError>)
        ensures
            match self@ {
                Entry::Scalar(v) => r is Ok && *r->Ok_0 == v,
                _ => r == Err::<&Value, StoreError>(StoreError::WrongType),
            },
    {
        match self {
            Val::Var(v) => Ok(v),
            _ => Err(StoreError::WrongType),
        }
    }

    /// The contents of a dictionary.
    pub fn as_dict(&self) -> (r: Result<&KeyMap<Value>, StoreError>)
        requires
            self.wf(),
        ensures
            match self@ {
                Entry::Dictionary(m) => r is Ok && r->Ok_0@ == m && r->Ok_0.wf(),
                _ => r == Err::<&KeyMap<Value>, StoreError>(StoreError::WrongType),
            },
    {
        match self {
            Val::Dict(m) => Ok(m),
            _ => Err(StoreError::WrongType),
        }
    }

    /// The members of a set.
    pub fn as_set(&self) -> (r: Result<&KeySet, StoreError>)
        requires
            self.wf(),
        ensures
            match self@ {
                Entry::Members(s) => r is Ok && r->Ok_0@ == s && r->Ok_0.wf(),
                _ => r == Err::<&KeySet, StoreError>(StoreError::WrongType),
            },
    {
        match self {
            Val::Members(s) => Ok(s),
            _ => Err(StoreError::WrongType),
        }
    }

    /// The items of a deque.
    pub fn as_deque(&self) -> (r: Result<&VecDeque<Value>, StoreError>)
        ensures
            match self@ {
                Entry::Deque(q) => r is Ok && r->Ok_0@ == q,
                _ => r == Err::<&VecDeque<Value>, StoreError>(StoreError::WrongType),
            },
    {
        match self {
            Val::Deq(q) => Ok(q),
            _ => Err(StoreError::WrongType),
        }
    }
}

} // verus!
