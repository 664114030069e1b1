//! The store: an ordered key space of typed values, and the commands that read
//! and write it. Each command's result and effect is given by a spec function
//! over the store's model; a failed command leaves the store as it was.
use std::collections::VecDeque;

use prost_types::Value;
use vstd::prelude::*;

use crate::error::StoreError;
use crate::key_order::KeyBound;
use crate::sorted_map::{is_range_page, key_views, KeyMap, KeySet};
use crate::value::{Entry, Val};

verus! {

/// The store's model: each present key with its value.
pub type StoreModel = Map<Seq<u8>, Entry>;

/// The dictionary under `k`, or an empty one where `k` is absent.
pub open spec fn dict_or_empty(m: StoreModel, k: Seq<u8>) -> Map<Seq<u8>, Value> {
    if m.contains_key(k) && m[k] is Dictionary {
        m[k]->Dictionary_0
    } else {
        Map::empty()
    }
}

/// The set under `k`, or an empty one where `k` is absent.
pub open spec fn members_or_empty(m: StoreModel, k: Seq<u8>) -> Set<Seq<u8>> {
    if m.contains_key(k) && m[k] is Members {
        m[k]->Members_0
    } else {
        Set::empty()
    }
}

/// The deque under `k`, or an empty one where `k` is absent.
pub open spec fn deque_or_empty(m: StoreModel, k: Seq<u8>) -> Seq<Value> {
    if m.contains_key(k) && m[k] is Deque {
        m[k]->Deque_0
    } else {
        Seq::empty()
    }
}

pub open spec fn set_result(v: Option<Value>) -> Result<(), StoreError> {
    match v {
        Some(_) => Ok(()),
        None => Err(StoreError::MissingValue),
    }
}

pub open spec fn get_result(m: StoreModel, k: Seq<u8>) -> Result<Value, StoreError> {
    if !m.contains_key(k) {
        Err(StoreError::KeyNotFound)
    } else {
        match m[k] {
            Entry::Scalar(v) => Ok(v),
            _ => Err(StoreError::WrongType),
        }
    }
}

pub open spec fn dset_result(m: StoreModel, k: Seq<u8>, dk: Seq<u8>, v: Option<Value>) -> Result<
    usize,
    StoreError,
> {
    if m.contains_key(k) && !(m[k] is Dictionary) {
        Err(StoreError::WrongType)
    } else {
        match v {
            Some(x) => Ok(dict_or_empty(m, k).insert(dk, x).len() as usize),
            None => Err(StoreError::MissingValue),
        }
    }
}

pub open spec fn dget_result(m: StoreModel, k: Seq<u8>, dk: Seq<u8>) -> Result<Value, StoreError> {
    if !m.contains_key(k) {
        Err(StoreError::KeyNotFound)
    } else {
        match m[k] {
            Entry::Dictionary(d) => if d.contains_key(dk) {
                Ok(d[dk])
            } else {
                Err(StoreError::SubKeyNotFound)
            },
            _ => Err(StoreError::WrongType),
        }
    }
}

pub open spec fn dhas_result(m: StoreModel, k: Seq<u8>, dk: Seq<u8>) -> Result<bool, StoreError> {
    if !m.contains_key(k) {
        Err(StoreError::KeyNotFound)
    } else {
        match m[k] {
            Entry::Dictionary(d) => Ok(d.contains_key(dk)),
            _ => Err(StoreError::WrongType),
        }
    }
}

/// The deque after pushing `x` at the chosen end.
pub open spec fn pushed(q: Seq<Value>, x: Value, front: bool) -> Seq<Value> {
    if front {
        seq![x] + q
    } else {
        q.push(x)
    }
}

pub open spec fn push_result(m: StoreModel, k: Seq<u8>, v: Option<Value>) -> Result<
    usize,
    StoreError,
> {
    if m.contains_key(k) && !(m[k] is Deque) {
        Err(StoreError::WrongType)
    } else {
        match v {
            Some(_) => Ok((deque_or_empty(m, k).len() + 1) as usize),
            None => Err(StoreError::MissingValue),
        }
    }
}

pub open spec fn pop_result(m: StoreModel, k: Seq<u8>, front: bool) -> Result<Value, StoreError> {
    if !m.contains_key(k) {
        Err(StoreError::KeyNotFound)
    } else {
        match m[k] {
            Entry::Deque(q) => if q.len() == 0 {
                Err(StoreError::EmptyDeque)
            } else if front {
                Ok(q.first())
            } else {
                Ok(q.last())
            },
            _ => Err(StoreError::WrongType),
        }
    }
}

/// The deque after popping from the chosen end.
pub open spec fn popped(q: Seq<Value>, front: bool) -> Seq<Value> {
    if front {
        q.drop_first()
    } else {
        q.drop_last()
    }
}

pub open spec fn qlen_result(m: StoreModel, k: Seq<u8>) -> Result<usize, StoreError> {
    if !m.contains_key(k) {
        Err(StoreError::KeyNotFound)
    } else {
        match m[k] {
            Entry::Deque(q) => Ok(q.len() as usize),
            _ => Err(StoreError::WrongType),
        }
    }
}

pub open spec fn sadd_result(m: StoreModel, k: Seq<u8>, x: Seq<u8>) -> Result<usize, StoreError> {
    if m.contains_key(k) && !(m[k] is Members) {
        Err(StoreError::WrongType)
    } else {
        Ok(members_or_empty(m, k).insert(x).len() as usize)
    }
}

pub open spec fn sdel_result(m: StoreModel, k: Seq<u8>, x: Seq<u8>) -> Result<usize, StoreError> {
    if !m.contains_key(k) {
        Err(StoreError::KeyNotFound)
    } else {
        match m[k] {
            Entry::Members(s) => Ok(s.remove(x).len() as usize),
            _ => Err(StoreError::WrongType),
        }
    }
}

pub open spec fn slen_result(m: StoreModel, k: Seq<u8>) -> Result<usize, StoreError> {
    if !m.contains_key(k) {
        Err(StoreError::KeyNotFound)
    } else {
        match m[k] {
            Entry::Members(s) => Ok(s.len() as usize),
            _ => Err(StoreError::WrongType),
        }
    }
}

pub open spec fn set_state(m: StoreModel, k: Seq<u8>, v: Option<Value>) -> StoreModel {
    match v {
        Some(x) => m.insert(k, Entry::Scalar(x)),
        None => m,
    }
}

pub open spec fn dset_state(m: StoreModel, k: Seq<u8>, dk: Seq<u8>, v: Option<Value>) -> StoreModel {
    if dset_result(m, k, dk, v) is Ok {
        m.insert(k, Entry::Dictionary(dict_or_empty(m, k).insert(dk, v->Some_0)))
    } else {
        m
    }
}

pub open spec fn push_state(m: StoreModel, k: Seq<u8>, v: Option<Value>, front: bool) -> StoreModel {
    if push_result(m, k, v) is Ok {
        m.insert(k, Entry::Deque(pushed(deque_or_empty(m, k), v->Some_0, front)))
    } else {
        m
    }
}

pub open spec fn pop_state(m: StoreModel, k: Seq<u8>, front: bool) -> StoreModel {
    if pop_result(m, k, front) is Ok {
        m.insert(k, Entry::Deque(popped(m[k]->Deque_0, front)))
    } else {
        m
    }
}

pub open spec fn sadd_state(m: StoreModel, k: Seq<u8>, x: Seq<u8>) -> StoreModel {
    if sadd_result(m, k, x) is Ok {
        m.insert(k, Entry::Members(members_or_empty(m, k).insert(x)))
    } else {
        m
    }
}

pub open spec fn sdel_state(m: StoreModel, k: Seq<u8>, x: Seq<u8>) -> StoreModel {
    if sdel_result(m, k, x) is Ok {
        m.insert(k, Entry::Members(m[k]->Members_0.remove(x)))
    } else {
        m
    }
}

pub open spec fn del_state(m: StoreModel, k: Seq<u8>) -> StoreModel {
    m.remove(k)
}

/// The ordered key space and its values.
pub struct Store {
    kv: KeyMap<Val>,
}

impl View for Store {
    type V = StoreModel;

    closed spec fn view(&self) -> StoreModel {
        self.kv@.map_values(|v: Val| v@)
    }
}

impl Store {
    pub closed spec fn wf(&self) -> bool {
        &&& self.kv.wf()
        &&& forall|k: Seq<u8>| #[trigger] self.kv@.contains_key(k) ==> self.kv@[k].wf()
    }

    pub fn new() -> (s: Self)
        ensures
            s.wf(),
            s@ == StoreModel::empty(),
    {
        let s = Store { kv: KeyMap::new() };
        assert(s@ =~= StoreModel::empty());
        s
    }

    /// The value under `key`, if any.
    fn lookup(&self, key: &Vec<u8>) -> (r: Option<&Val>)
        requires
            self.wf(),
        ensures
            match r {
                Some(v) => self@.contains_key(key@) && v@ == self@[key@] && v.wf(),
                None => !self@.contains_key(key@),
            },
    {
        self.kv.get(key)
    }

    /// Puts `v` under `key`, replacing what was there.
    fn put(&mut self, key: Vec<u8>, v: Val)
        requires
            old(self).wf(),
            v.wf(),
        ensures
            final(self).wf(),
            final(self)@ == old(self)@.insert(key@, v@),
    {
        let ghost kv = key@;
        let ghost e = v@;
        self.kv.insert(key, v);
        assert(self@ =~= old(self)@.insert(kv, e));
    }

    /// Takes the value under `key` out of the store.
    fn take(&mut self, key: &Vec<u8>) -> (r: Option<Val>)
        requires
            old(self).wf(),
        ensures
            final(self).wf(),
            final(self)@ == old(self)@.remove(key@),
            match r {
                Some(v) => old(self)@.contains_key(key@) && v@ == old(self)@[key@] && v.wf(),
                None => !old(self)@.contains_key(key@),
            },
    {
        let r = self.kv.remove(key);
        assert(self@ =~= old(self)@.remove(key@));
        r
    }

    /// Set: puts a scalar under `key`, replacing whatever was there.
    pub fn set(&mut self, key: Vec<u8>, value: Option<Value>) -> (r: Result<(), StoreError>)
        requires
            old(self).wf(),
        ensures
            final(self).wf(),
            r == set_result(value),
            final(self)@ == set_state(old(self)@, key@, value),
    {
        match value {
            Some(v) => {
                self.put(key, Val::Var(v));
                Ok(())
            },
            None => Err(StoreError::MissingValue),
        }
    }

    /// Get: a copy of the scalar under `key`.
    pub fn get(&self, key: &Vec<u8>) -> (r: Result<Value, StoreError>)
        requires
            self.wf(),
        ensures
            r == get_result(self@, key@),
    {
        match self.lookup(key) {
            None => Err(StoreError::KeyNotFound),
            Some(v) => match v.as_scalar() {
                Ok(s) => Ok(s.clone()),
                Err(e) => Err(e),
            },
        }
    }

    /// Del: removes `key`; an absent key is no error.
    pub fn del(&mut self, key: &Vec<u8>)
        requires
            old(self).wf(),
        ensures
            final(self).wf(),
            final(self)@ == del_state(old(self)@, key@),
    {
        self.take(key);
    }

    /// DSet: puts `value` under `dkey` in the dictionary under `key`, which
    /// an absent key starts as empty; returns the dictionary's new size.
    pub fn dset(&mut self, key: Vec<u8>, dkey: Vec<u8>, value: Option<Value>) -> (r: Result<
        usize,
        StoreError,
    >)
        requires
            old(self).wf(),
        ensures
            final(self).wf(),
            r == dset_result(old(self)@, key@, dkey@, value),
            final(self)@ == dset_state(old(self)@, key@, dkey@, value),
    {
        if let Some(v) = self.lookup(&key) {
            if let Err(e) = v.as_dict() {
                return Err(e);
            }
        }
        let x = match value {
            Some(x) => x,
            None => return Err(StoreError::MissingValue),
        };
        let mut d = match self.take(&key) {
            Some(Val::Dict(d)) => d,
            _ => KeyMap::new(),
        };
        d.insert(dkey, x);
        let n = d.len();
        self.put(key, Val::Dict(d));
        Ok(n)
    }

    /// DGet: a copy of what the dictionary under `key` holds under `dkey`.
    pub fn dget(&self, key: &Vec<u8>, dkey: &Vec<u8>) -> (r: Result<Value, StoreError>)
        requires
            self.wf(),
        ensures
            r == dget_result(self@, key@, dkey@),
    {
        let v = match self.lookup(key) {
            Some(v) => v,
            None => return Err(StoreError::KeyNotFound),
        };
        let d = match v.as_dict() {
            Ok(d) => d,
            Err(e) => return Err(e),
        };
        match d.get(dkey) {
            Some(x) => Ok(x.clone()),
            None => Err(StoreError::SubKeyNotFound),
        }
    }

    /// DHas: whether the dictionary under `key` holds `dkey`.
    pub fn dhas(&self, key: &Vec<u8>, dkey: &Vec<u8>) -> (r: Result<bool, StoreError>)
        requires
            self.wf(),
        ensures
            r == dhas_result(self@, key@, dkey@),
    {
        let v = match self.lookup(key) {
            Some(v) => v,
            None => return Err(StoreError::KeyNotFound),
        };
        match v.as_dict() {
            Ok(d) => Ok(d.contains_key(dkey)),
            Err(e) => Err(e),
        }
    }

    /// Push: adds `value` at one end of the deque under `key`, which an
    /// absent key starts as empty; returns the deque's new length.
    pub fn push(&mut self, key: Vec<u8>, value: Option<Value>, front: bool) -> (r: Result<
        usize,
        StoreError,
    >)
        requires
            old(self).wf(),
        ensures
            final(self).wf(),
            r == push_result(old(self)@, key@, value),
            final(self)@ == push_state(old(self)@, key@, value, front),
    {
        if let Some(v) = self.lookup(&key) {
            if let Err(e) = v.as_deque() {
                return Err(e);
            }
        }
        let x = match value {
            Some(x) => x,
            None => return Err(StoreError::MissingValue),
        };
        let mut q = match self.take(&key) {
            Some(Val::Deq(q)) => q,
            _ => VecDeque::new(),
        };
        if front {
            q.push_front(x);
        } else {
            q.push_back(x);
        }
        let n = q.len();
        self.put(key, Val::Deq(q));
        Ok(n)
    }

    /// Pop: removes and returns the item at one end of the deque under
    /// `key`. The deque stays in the store, even when it is left empty.
    pub fn pop(&mut self, key: &Vec<u8>, front: bool) -> (r: Result<Value, StoreError>)
        requires
            old(self).wf(),
        ensures
            final(self).wf(),
            r == pop_result(old(self)@, key@, front),
            final(self)@ == pop_state(old(self)@, key@, front),
    {
        match self.lookup(key) {
            None => return Err(StoreError::KeyNotFound),
            Some(v) => match v.as_deque() {
                Err(e) => return Err(e),
                Ok(q) => {
                    if q.len() == 0 {
                        return Err(StoreError::EmptyDeque);
                    }
                },
            },
        }
        let mut q = match self.take(key) {
            Some(Val::Deq(q)) => q,
            _ => VecDeque::new(),
        };
        let x = if front {
            q.pop_front()
        } else {
            q.pop_back()
        };
        proof {
            assert(q@ =~= popped(old(self)@[key@]->Deque_0, front));
        }
        self.put(key.clone(), Val::Deq(q));
        match x {
            Some(x) => Ok(x),
            None => Err(StoreError::EmptyDeque),
        }
    }

    /// QLen: the length of the deque under `key`.
    pub fn qlen(&self, key: &Vec<u8>) -> (r: Result<usize, StoreError>)
        requires
            self.wf(),
        ensures
            r == qlen_result(self@, key@),
    {
        match self.lookup(key) {
            None => Err(StoreError::KeyNotFound),
            Some(v) => match v.as_deque() {
                Ok(q) => Ok(q.len()),
                Err(e) => Err(e),
            },
        }
    }

    /// SAdd: adds `member` to the set under `key`, which an absent key starts
    /// as empty; returns the set's new size.
    pub fn sadd(&mut self, key: Vec<u8>, member: Vec<u8>) -> (r: Result<usize, StoreError>)
        requires
            old(self).wf(),
        ensures
            final(self).wf(),
            r == sadd_result(old(self)@, key@, member@),
            final(self)@ == sadd_state(old(self)@, key@, member@),
    {
        if let Some(v) = self.lookup(&key) {
            if let Err(e) = v.as_set() {
                return Err(e);
            }
        }
        let mut s = match self.take(&key) {
            Some(Val::Members(s)) => s,
            _ => KeySet::new(),
        };
        s.insert(member);
        let n = s.len();
        self.put(key, Val::Members(s));
        Ok(n)
    }

    /// SDel: removes `member` from the set under `key`, if there; returns the
    /// set's new size.
    pub fn sdel(&mut self, key: &Vec<u8>, member: &Vec<u8>) -> (r: Result<usize, StoreError>)
        requires
            old(self).wf(),
        ensures
            final(self).wf(),
            r == sdel_result(old(self)@, key@, member@),
            final(self)@ == sdel_state(old(self)@, key@, member@),
    {
        match self.lookup(key) {
            None => return Err(StoreError::KeyNotFound),
            Some(v) => {
                if let Err(e) = v.as_set() {
                    return Err(e);
                }
            },
        }
        let mut s = match self.take(key) {
            Some(Val::Members(s)) => s,
            _ => KeySet::new(),
        };
        s.remove(member);
        let n = s.len();
        self.put(key.clone(), Val::Members(s));
        Ok(n)
    }

    /// SLen: the size of the set under `key`.
    pub fn slen(&self, key: &Vec<u8>) -> (r: Result<usize, StoreError>)
        requires
            self.wf(),
        ensures
            r == slen_result(self@, key@),
    {
        match self.lookup(key) {
            None => Err(StoreError::KeyNotFound),
            Some(v) => match v.as_set() {
                Ok(s) => Ok(s.len()),
                Err(e) => Err(e),
            },
        }
    }

    /// Range: up to `max` keys between the bounds, in ascending order.
    pub fn range_keys(&self, lower: &KeyBound, upper: &KeyBound, max: usize) -> (r: Vec<Vec<u8>>)
        requires
            self.wf(),
        ensures
            is_range_page(self@.dom(), *lower, *upper, max as nat, key_views(r@)),
    {
        let r = self.kv.range_keys(lower, upper, max);
        assert(self@.dom() =~= self.kv@.dom());
        r
    }
}

} // verus!
