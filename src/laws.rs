//! Laws that hold of the store's commands, stated over their spec functions.
use core::cmp::Ordering;

use prost_types::Value;
use vstd::prelude::*;

use crate::error::StoreError;
use crate::key_order::lex_cmp;
use crate::store::{
    deque_or_empty, del_state, get_result, members_or_empty, pop_result, pop_state, push_result,
    push_state, qlen_result, sadd_result, sadd_state, sdel_result, sdel_state, set_state,
    slen_result, StoreModel,
};
use crate::svc::{range_bounds, range_reply, Bound, BoundKind, RangeRequest};
use crate::value::Entry;

verus! {

/// Setting a key and then reading it gives back the value set.
pub proof fn lemma_set_then_get(m: StoreModel, k: Seq<u8>, v: Value)
    ensures
        get_result(set_state(m, k, Some(v)), k) == Ok::<Value, StoreError>(v),
{
}

/// Deleting an absent key leaves the store as it was.
pub proof fn lemma_del_absent(m: StoreModel, k: Seq<u8>)
    requires
        !m.contains_key(k),
    ensures
        del_state(m, k) == m,
{
    assert(m.remove(k) =~= m);
}

/// Adding a member twice answers and leaves the same as adding it once.
pub proof fn lemma_sadd_twice(m: StoreModel, k: Seq<u8>, x: Seq<u8>)
    ensures
        sadd_result(sadd_state(m, k, x), k, x) == sadd_result(m, k, x),
        sadd_state(sadd_state(m, k, x), k, x) == sadd_state(m, k, x),
{
    let m1 = sadd_state(m, k, x);
    if sadd_result(m, k, x) is Ok {
        assert(members_or_empty(m1, k) == members_or_empty(m, k).insert(x));
        assert(members_or_empty(m, k).insert(x).insert(x) =~= members_or_empty(m, k).insert(x));
        assert(m1.insert(k, Entry::Members(members_or_empty(m1, k).insert(x))) =~= m1);
    }
}

/// After a successful add, the set's size is the size that the add answered.
pub proof fn lemma_slen_after_sadd(m: StoreModel, k: Seq<u8>, x: Seq<u8>)
    requires
        sadd_result(m, k, x) is Ok,
    ensures
        slen_result(sadd_state(m, k, x), k) == sadd_result(m, k, x),
{
}

/// After a successful removal, the set's size is the size that the removal
/// answered.
pub proof fn lemma_slen_after_sdel(m: StoreModel, k: Seq<u8>, x: Seq<u8>)
    requires
        sdel_result(m, k, x) is Ok,
    ensures
        slen_result(sdel_state(m, k, x), k) == sdel_result(m, k, x),
{
}

/// Two adds to one set give the same store in either order; on an absent
/// key, two distinct members make a set of exactly those two.
pub proof fn lemma_sadd_commute(m: StoreModel, k: Seq<u8>, x: Seq<u8>, y: Seq<u8>)
    ensures
        sadd_state(sadd_state(m, k, x), k, y) == sadd_state(sadd_state(m, k, y), k, x),
        !m.contains_key(k) ==> sadd_state(sadd_state(m, k, x), k, y)[k] == Entry::Members(
            set![x, y],
        ),
        !m.contains_key(k) && x != y ==> slen_result(sadd_state(sadd_state(m, k, x), k, y), k)
            == Ok::<usize, StoreError>(2),
{
    let s = members_or_empty(m, k);
    if sadd_result(m, k, x) is Ok {
        assert(s.insert(x).insert(y) =~= s.insert(y).insert(x));
        assert(sadd_state(sadd_state(m, k, x), k, y) =~= sadd_state(sadd_state(m, k, y), k, x));
    }
    if !m.contains_key(k) {
        assert(Set::<Seq<u8>>::empty().insert(x).insert(y) =~= set![x, y]);
        if x != y {
            let t = set![x, y];
            assert(t.len() == 2) by {
                assert(t =~= Set::<Seq<u8>>::empty().insert(x).insert(y));
                assert(Set::<Seq<u8>>::empty().insert(x).len() == 1);
            }
        }
    }
}

/// Pushing at the front and then popping from the front returns the item
/// pushed, and leaves the deque under the key as it was before the push.
pub proof fn lemma_push_pop_front(m: StoreModel, k: Seq<u8>, v: Value)
    requires
        push_result(m, k, Some(v)) is Ok,
    ensures
        pop_result(push_state(m, k, Some(v), true), k, true) == Ok::<Value, StoreError>(v),
        pop_state(push_state(m, k, Some(v), true), k, true) == m.insert(
            k,
            Entry::Deque(deque_or_empty(m, k)),
        ),
{
    let q = deque_or_empty(m, k);
    assert((seq![v] + q).drop_first() =~= q);
    assert(push_state(m, k, Some(v), true).insert(k, Entry::Deque(q)) =~= m.insert(
        k,
        Entry::Deque(q),
    ));
}

/// The store after pushing each of `vals` in turn at one end of the deque
/// under `k`.
pub open spec fn push_all(m: StoreModel, k: Seq<u8>, vals: Seq<Value>, front: bool) -> StoreModel
    decreases vals.len(),
{
    if vals.len() == 0 {
        m
    } else {
        push_state(push_all(m, k, vals.drop_last(), front), k, Some(vals.last()), front)
    }
}

/// The store after popping `n` times from one end of the deque under `k`.
pub open spec fn pop_times(m: StoreModel, k: Seq<u8>, n: nat, front: bool) -> StoreModel
    decreases n,
{
    if n == 0 {
        m
    } else {
        pop_state(pop_times(m, k, (n - 1) as nat, front), k, front)
    }
}

proof fn lemma_push_all_len(m: StoreModel, k: Seq<u8>, vals: Seq<Value>, front: bool)
    requires
        !m.contains_key(k) || m[k] is Deque,
    ensures
        push_all(m, k, vals, front).contains_key(k) || vals.len() == 0,
        !push_all(m, k, vals, front).contains_key(k) || push_all(m, k, vals, front)[k] is Deque,
        deque_or_empty(push_all(m, k, vals, front), k).len() == deque_or_empty(m, k).len()
            + vals.len(),
    decreases vals.len(),
{
    if vals.len() > 0 {
        lemma_push_all_len(m, k, vals.drop_last(), front);
    }
}

proof fn lemma_pop_times_len(m: StoreModel, k: Seq<u8>, n: nat, front: bool)
    requires
        m.contains_key(k),
        m[k] is Deque,
        n <= m[k]->Deque_0.len(),
    ensures
        pop_times(m, k, n, front).contains_key(k),
        pop_times(m, k, n, front)[k] is Deque,
        pop_times(m, k, n, front)[k]->Deque_0.len() == m[k]->Deque_0.len() - n,
    decreases n,
{
    if n > 0 {
        lemma_pop_times_len(m, k, (n - 1) as nat, front);
    }
}

/// After `vals.len()` pushes onto a deque (or an absent key) and `pops` pops,
/// with no more pops than pushes, the deque's length has grown by the
/// difference.
pub proof fn lemma_qlen_after_pushes_and_pops(
    m: StoreModel,
    k: Seq<u8>,
    vals: Seq<Value>,
    push_front: bool,
    pops: nat,
    pop_front: bool,
)
    requires
        !m.contains_key(k) || m[k] is Deque,
        0 < vals.len(),
        pops <= vals.len(),
    ensures
        qlen_result(pop_times(push_all(m, k, vals, push_front), k, pops, pop_front), k) == Ok::<
            usize,
            StoreError,
        >((deque_or_empty(m, k).len() + vals.len() - pops) as usize),
{
    lemma_push_all_len(m, k, vals, push_front);
    lemma_pop_times_len(push_all(m, k, vals, push_front), k, pops, pop_front);
}

/// Popping from a deque that is present but empty fails with `EmptyDeque`,
/// changes nothing, and the deque's length stays zero.
pub proof fn lemma_pop_drained(m: StoreModel, k: Seq<u8>, front: bool)
    requires
        m.contains_key(k),
        m[k] is Deque,
        m[k]->Deque_0.len() == 0,
    ensures
        pop_result(m, k, front) == Err::<Value, StoreError>(StoreError::EmptyDeque),
        pop_state(m, k, front) == m,
        qlen_result(pop_state(m, k, front), k) == Ok::<usize, StoreError>(0),
{
}

/// A deque emptied by as many pops as it had items stays in the store: its
/// length reads zero and one more pop fails with `EmptyDeque`.
pub proof fn lemma_drained_deque_stays(
    m: StoreModel,
    k: Seq<u8>,
    vals: Seq<Value>,
    push_front: bool,
    pop_front: bool,
)
    requires
        !m.contains_key(k) || m[k] is Deque,
        0 < vals.len(),
    ensures
        ({
            let drained = pop_times(
                push_all(m, k, vals, push_front),
                k,
                deque_or_empty(m, k).len() + vals.len(),
                pop_front,
            );
            &&& drained.contains_key(k)
            &&& qlen_result(drained, k) == Ok::<usize, StoreError>(0)
            &&& pop_result(drained, k, pop_front) == Err::<Value, StoreError>(
                StoreError::EmptyDeque,
            )
            &&& pop_state(drained, k, pop_front) == drained
        }),
{
    let n = deque_or_empty(m, k).len() + vals.len();
    lemma_push_all_len(m, k, vals, push_front);
    lemma_pop_times_len(push_all(m, k, vals, push_front), k, n, pop_front);
}

/// Pushing onto a key that holds a scalar fails with `WrongType` and leaves
/// the scalar in place.
pub proof fn lemma_push_on_scalar(m: StoreModel, k: Seq<u8>, x: Value, v: Option<Value>, front: bool)
    requires
        m.contains_key(k),
        m[k] == Entry::Scalar(x),
    ensures
        push_result(m, k, v) == Err::<usize, StoreError>(StoreError::WrongType),
        push_state(m, k, v, front) == m,
        get_result(push_state(m, k, v, front), k) == Ok::<Value, StoreError>(x),
{
}

/// The key of a requested range end, if it names one.
pub open spec fn requested_key(b: Option<Bound>) -> Option<Seq<u8>> {
    match b {
        Some(Bound { bound: Some(BoundKind::Included(v)) }) => Some(v@),
        Some(Bound { bound: Some(BoundKind::Excluded(v)) }) => Some(v@),
        _ => None,
    }
}

/// A range whose lower key is above its upper key is refused with
/// `LowerAboveUpper`, and no keys are returned.
pub proof fn lemma_range_lower_above_upper(
    m: StoreModel,
    q: RangeRequest,
    max: usize,
    r: Result<Vec<Vec<u8>>, StoreError>,
)
    requires
        requested_key(q.lower) is Some,
        requested_key(q.upper) is Some,
        lex_cmp(requested_key(q.lower)->Some_0, requested_key(q.upper)->Some_0)
            == Ordering::Greater,
        range_reply(m, q, max, r),
    ensures
        range_bounds(q) == Err::<(crate::key_order::KeyBound, crate::key_order::KeyBound), StoreError>(
            StoreError::LowerAboveUpper,
        ),
        r is Err,
        r->Err_0 == StoreError::LowerAboveUpper,
        r->Err_0.spec_kind() == crate::error::ErrorKind::InvalidArgument,
{
}

} // verus!
