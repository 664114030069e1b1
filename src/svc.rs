//! The command protocol: one request and one response type per command, the
//! command set `Req`, and the handlers that run a command against the store.
//! Handlers stamp each successful write with the current time.
use core::cmp::Ordering;

use prost_types::{Timestamp, Value};
use vstd::prelude::*;

use crate::error::StoreError;
use crate::key_order::{compare_keys, lex_cmp, KeyBound};
use crate::protobuf::current_time;
use crate::sorted_map::{is_range_page, key_views};
use crate::store::{
    del_state, dget_result, dhas_result, dset_result, dset_state, get_result, pop_result,
    pop_state, push_result, push_state, qlen_result, sadd_result, sadd_state, sdel_result,
    sdel_state, set_result, set_state, slen_result, Store, StoreModel,
};

verus! {

/// How many keys one range scan returns at most, unless configured otherwise.
pub const MAX_RANGE_SIZE_DEFAULT: usize = 10;

pub struct SetRequest {
    pub key: Vec<u8>,
    pub value: Option<Value>,
}

pub struct SetResponse {
    pub set_time: Option<Timestamp>,
}

pub struct GetRequest {
    pub key: Vec<u8>,
}

pub struct GetResponse {
    pub value: Option<Value>,
}

pub struct DSetRequest {
    pub key: Vec<u8>,
    pub dkey: Vec<u8>,
    pub value: Option<Value>,
}

pub struct DSetResponse {
    pub count: u64,
    pub dset_time: Option<Timestamp>,
}

pub struct DGetRequest {
    pub key: Vec<u8>,
    pub dkey: Vec<u8>,
}

pub struct DGetResponse {
    pub value: Option<Value>,
}

pub struct DHasRequest {
    pub key: Vec<u8>,
    pub dkey: Vec<u8>,
}

pub struct DHasResponse {
    pub found: bool,
}

pub struct PushRequest {
    pub key: Vec<u8>,
    pub value: Option<Value>,
    pub front: bool,
}

pub struct PushResponse {
    pub count: u64,
    pub push_time: Option<Timestamp>,
}

pub struct PopRequest {
    pub key: Vec<u8>,
    pub front: bool,
}

pub struct PopResponse {
    pub value: Option<Value>,
    pub pop_time: Option<Timestamp>,
}

pub struct QLenRequest {
    pub key: Vec<u8>,
}

pub struct QLenResponse {
    pub count: u64,
}

pub struct SAddRequest {
    pub key: Vec<u8>,
    pub val: Vec<u8>,
}

pub struct SAddResponse {
    pub count: u64,
    pub sadd_time: Option<Timestamp>,
}

pub struct SDelRequest {
    pub key: Vec<u8>,
    pub val: Vec<u8>,
}

pub struct SDelResponse {
    pub count: u64,
    pub sdel_time: Option<Timestamp>,
}

pub struct SLenRequest {
    pub key: Vec<u8>,
}

pub struct SLenResponse {
    pub count: u64,
}

pub struct DelRequest {
    pub key: Vec<u8>,
}

pub struct DelResponse {
    pub del_time: Option<Timestamp>,
}

/// Which side of a range end its key stands on.
pub enum BoundKind {
    Included(Vec<u8>),
    Excluded(Vec<u8>),
}

/// One end of a requested range; `None` leaves it unbounded.
pub struct Bound {
    pub bound: Option<BoundKind>,
}

pub struct RangeRequest {
    pub lower: Option<Bound>,
    pub upper: Option<Bound>,
}

pub struct RangeResponse {
    pub key: Vec<u8>,
}

/// Settings of the store's command processing.
pub struct Conf {
    /// The most keys that one range scan returns.
    pub max_range: usize,
}

impl Default for Conf {
    fn default() -> (r: Self)
        ensures
            r.max_range == MAX_RANGE_SIZE_DEFAULT,
    {
        Conf { max_range: MAX_RANGE_SIZE_DEFAULT }
    }
}

/// The key bound that a requested range end stands for.
pub open spec fn spec_bound_convert(ob: Option<Bound>) -> Result<KeyBound, StoreError> {
    match ob {
        Some(Bound { bound: Some(BoundKind::Included(v)) }) => Ok(KeyBound::Included(v)),
        Some(Bound { bound: Some(BoundKind::Excluded(v)) }) => Ok(KeyBound::Excluded(v)),
        _ => Err(StoreError::InvalidBound),
    }
}

/// The key of an explicit bound.
pub open spec fn bound_key(b: KeyBound) -> Option<Seq<u8>> {
    match b {
        KeyBound::Included(v) => Some(v@),
        KeyBound::Excluded(v) => Some(v@),
        KeyBound::Unbounded => None,
    }
}

/// Whether a scan between `l` and `u` may run: both are explicit and the
/// lower key is not above the upper one.
pub open spec fn spec_check_bound(l: KeyBound, u: KeyBound) -> Result<(), StoreError> {
    if bound_key(l) is None || bound_key(u) is None {
        Err(StoreError::InvalidBound)
    } else if lex_cmp(bound_key(l)->Some_0, bound_key(u)->Some_0) == Ordering::Greater {
        Err(StoreError::LowerAboveUpper)
    } else {
        Ok(())
    }
}

/// The bounds that a range request scans between, or why it is refused.
pub open spec fn range_bounds(req: RangeRequest) -> Result<(KeyBound, KeyBound), StoreError> {
    match spec_bound_convert(req.lower) {
        Err(e) => Err(e),
        Ok(l) => match spec_bound_convert(req.upper) {
            Err(e) => Err(e),
            Ok(u) => match spec_check_bound(l, u) {
                Err(e) => Err(e),
                Ok(_) => Ok((l, u)),
            },
        },
    }
}

/// Turns a requested range end into a key bound; a missing end is refused.
pub fn bound_convert(ob: Option<Bound>) -> (r: Result<KeyBound, StoreError>)
    ensures
        r == spec_bound_convert(ob),
{
    let b = match ob {
        Some(b) => b,
        None => return Err(StoreError::InvalidBound),
    };
    match b.bound {
        Some(BoundKind::Included(v)) => Ok(KeyBound::Included(v)),
        Some(BoundKind::Excluded(v)) => Ok(KeyBound::Excluded(v)),
        None => Err(StoreError::InvalidBound),
    }
}

/// The key of an explicit bound; an unbounded end is refused.
pub fn bound2t(b: &KeyBound) -> (r: Result<&Vec<u8>, StoreError>)
    ensures
        match bound_key(*b) {
            Some(k) => r is Ok && r->Ok_0@ == k,
            None => r == Err::<&Vec<u8>, StoreError>(StoreError::InvalidBound),
        },
{
    match b {
        KeyBound::Included(t) => Ok(t),
        KeyBound::Excluded(t) => Ok(t),
        KeyBound::Unbounded => Err(StoreError::InvalidBound),
    }
}

/// How the keys of two explicit bounds compare.
pub fn bounds2ord(l: &KeyBound, u: &KeyBound) -> (r: Result<Ordering, StoreError>)
    ensures
        r == (if bound_key(*l) is None || bound_key(*u) is None {
            Err(StoreError::InvalidBound)
        } else {
            Ok(lex_cmp(bound_key(*l)->Some_0, bound_key(*u)->Some_0))
        }),
{
    let lt = match bound2t(l) {
        Ok(t) => t,
        Err(e) => return Err(e),
    };
    let ut = match bound2t(u) {
        Ok(t) => t,
        Err(e) => return Err(e),
    };
    Ok(compare_keys(lt, ut))
}

/// Accepts two explicit bounds whose lower key is not above the upper one.
pub fn check_bound(l: &KeyBound, u: &KeyBound) -> (r: Result<(), StoreError>)
    ensures
        r == spec_check_bound(*l, *u),
{
    let o = match bounds2ord(l, u) {
        Ok(o) => o,
        Err(e) => return Err(e),
    };
    match o {
        Ordering::Less => Ok(()),
        Ordering::Equal => Ok(()),
        Ordering::Greater => Err(StoreError::LowerAboveUpper),
    }
}

/// A command for the store, with its arguments.
pub enum Req {
    Del(DelRequest),
    Range(RangeRequest),
    SetScalar(SetRequest),
    Get(GetRequest),
    DGet(DGetRequest),
    DHas(DHasRequest),
    DSet(DSetRequest),
    Pop(PopRequest),
    Push(PushRequest),
    QLen(QLenRequest),
    SAdd(SAddRequest),
    SDel(SDelRequest),
    SLen(SLenRequest),
}

/// The outcome of a command, in the variant of the command.
pub enum Reply {
    Del(Result<DelResponse, StoreError>),
    Range(Result<Vec<Vec<u8>>, StoreError>),
    SetScalar(Result<SetResponse, StoreError>),
    Get(Result<GetResponse, StoreError>),
    DGet(Result<DGetResponse, StoreError>),
    DHas(Result<DHasResponse, StoreError>),
    DSet(Result<DSetResponse, StoreError>),
    Pop(Result<PopResponse, StoreError>),
    Push(Result<PushResponse, StoreError>),
    QLen(Result<QLenResponse, StoreError>),
    SAdd(Result<SAddResponse, StoreError>),
    SDel(Result<SDelResponse, StoreError>),
    SLen(Result<SLenResponse, StoreError>),
}

/// `r` failed with `e`.
pub open spec fn failed_with<T>(r: Result<T, StoreError>, e: StoreError) -> bool {
    r is Err && r->Err_0 == e
}

pub open spec fn set_reply(q: SetRequest, r: Result<SetResponse, StoreError>) -> bool {
    match set_result(q.value) {
        Ok(_) => r is Ok && r->Ok_0.set_time is Some,
        Err(e) => failed_with(r, e),
    }
}

pub open spec fn get_reply(m: StoreModel, q: GetRequest, r: Result<GetResponse, StoreError>) -> bool {
    match get_result(m, q.key@) {
        Ok(v) => r is Ok && r->Ok_0.value == Some(v),
        Err(e) => failed_with(r, e),
    }
}

pub open spec fn dset_reply(m: StoreModel, q: DSetRequest, r: Result<DSetResponse, StoreError>) -> bool {
    match dset_result(m, q.key@, q.dkey@, q.value) {
        Ok(n) => r is Ok && r->Ok_0.count == n as u64 && r->Ok_0.dset_time is Some,
        Err(e) => failed_with(r, e),
    }
}

pub open spec fn dget_reply(m: StoreModel, q: DGetRequest, r: Result<DGetResponse, StoreError>) -> bool {
    match dget_result(m, q.key@, q.dkey@) {
        Ok(v) => r is Ok && r->Ok_0.value == Some(v),
        Err(e) => failed_with(r, e),
    }
}

pub open spec fn dhas_reply(m: StoreModel, q: DHasRequest, r: Result<DHasResponse, StoreError>) -> bool {
    match dhas_result(m, q.key@, q.dkey@) {
        Ok(b) => r is Ok && r->Ok_0.found == b,
        Err(e) => failed_with(r, e),
    }
}

pub open spec fn push_reply(m: StoreModel, q: PushRequest, r: Result<PushResponse, StoreError>) -> bool {
    match push_result(m, q.key@, q.value) {
        Ok(n) => r is Ok && r->Ok_0.count == n as u64 && r->Ok_0.push_time is Some,
        Err(e) => failed_with(r, e),
    }
}

pub open spec fn pop_reply(m: StoreModel, q: PopRequest, r: Result<PopResponse, StoreError>) -> bool {
    match pop_result(m, q.key@, q.front) {
        Ok(v) => r is Ok && r->Ok_0.value == Some(v) && r->Ok_0.pop_time is Some,
        Err(e) => failed_with(r, e),
    }
}

pub open spec fn qlen_reply(m: StoreModel, q: QLenRequest, r: Result<QLenResponse, StoreError>) -> bool {
    match qlen_result(m, q.key@) {
        Ok(n) => r is Ok && r->Ok_0.count == n as u64,
        Err(e) => failed_with(r, e),
    }
}

pub open spec fn sadd_reply(m: StoreModel, q: SAddRequest, r: Result<SAddResponse, StoreError>) -> bool {
    match sadd_result(m, q.key@, q.val@) {
        Ok(n) => r is Ok && r->Ok_0.count == n as u64 && r->Ok_0.sadd_time is Some,
        Err(e) => failed_with(r, e),
    }
}

pub open spec fn sdel_reply(m: StoreModel, q: SDelRequest, r: Result<SDelResponse, StoreError>) -> bool {
    match sdel_result(m, q.key@, q.val@) {
        Ok(n) => r is Ok && r->Ok_0.count == n as u64 && r->Ok_0.sdel_time is Some,
        Err(e) => failed_with(r, e),
    }
}

pub open spec fn slen_reply(m: StoreModel, q: SLenRequest, r: Result<SLenResponse, StoreError>) -> bool {
    match slen_result(m, q.key@) {
        Ok(n) => r is Ok && r->Ok_0.count == n as u64,
        Err(e) => failed_with(r, e),
    }
}

pub open spec fn del_reply(r: Result<DelResponse, StoreError>) -> bool {
    r is Ok && r->Ok_0.del_time is Some
}

pub open spec fn range_reply(
    m: StoreModel,
    q: RangeRequest,
    max: usize,
    r: Result<Vec<Vec<u8>>, StoreError>,
) -> bool {
    match range_bounds(q) {
        Ok((l, u)) => r is Ok && is_range_page(m.dom(), l, u, max as nat, key_views(r->Ok_0@)),
        Err(e) => failed_with(r, e),
    }
}

/// The store after running `req` on `m`.
pub open spec fn next_state(m: StoreModel, req: Req) -> StoreModel {
    match req {
        Req::SetScalar(q) => set_state(m, q.key@, q.value),
        Req::DSet(q) => dset_state(m, q.key@, q.dkey@, q.value),
        Req::Push(q) => push_state(m, q.key@, q.value, q.front),
        Req::Pop(q) => pop_state(m, q.key@, q.front),
        Req::SAdd(q) => sadd_state(m, q.key@, q.val@),
        Req::SDel(q) => sdel_state(m, q.key@, q.val@),
        Req::Del(q) => del_state(m, q.key@),
        _ => m,
    }
}

/// `reply` is what running `req` on `m` answers.
pub open spec fn reply_agrees(m: StoreModel, req: Req, max: usize, reply: Reply) -> bool {
    match (req, reply) {
        (Req::SetScalar(q), Reply::SetScalar(r)) => set_reply(q, r),
        (Req::Get(q), Reply::Get(r)) => get_reply(m, q, r),
        (Req::DSet(q), Reply::DSet(r)) => dset_reply(m, q, r),
        (Req::DGet(q), Reply::DGet(r)) => dget_reply(m, q, r),
        (Req::DHas(q), Reply::DHas(r)) => dhas_reply(m, q, r),
        (Req::Push(q), Reply::Push(r)) => push_reply(m, q, r),
        (Req::Pop(q), Reply::Pop(r)) => pop_reply(m, q, r),
        (Req::QLen(q), Reply::QLen(r)) => qlen_reply(m, q, r),
        (Req::SAdd(q), Reply::SAdd(r)) => sadd_reply(m, q, r),
        (Req::SDel(q), Reply::SDel(r)) => sdel_reply(m, q, r),
        (Req::SLen(q), Reply::SLen(r)) => slen_reply(m, q, r),
        (Req::Del(_), Reply::Del(r)) => del_reply(r),
        (Req::Range(q), Reply::Range(r)) => range_reply(m, q, max, r),
        _ => false,
    }
}

impl Req {
    pub fn handle_set(kv: &mut Store, req: SetRequest) -> (r: Result<SetResponse, StoreError>)
        requires
            old(kv).wf(),
        ensures
            final(kv).wf(),
            final(kv)@ == set_state(old(kv)@, req.key@, req.value),
            set_reply(req, r),
    {
        match kv.set(req.key, req.value) {
            Ok(()) => Ok(SetResponse { set_time: Some(current_time()) }),
            Err(e) => Err(e),
        }
    }

    pub fn handle_get(kv: &Store, req: GetRequest) -> (r: Result<GetResponse, StoreError>)
        requires
            kv.wf(),
        ensures
            get_reply(kv@, req, r),
    {
        match kv.get(&req.key) {
            Ok(v) => Ok(GetResponse { value: Some(v) }),
            Err(e) => Err(e),
        }
    }

    pub fn handle_dset(kv: &mut Store, req: DSetRequest) -> (r: Result<DSetResponse, StoreError>)
        requires
            old(kv).wf(),
        ensures
            final(kv).wf(),
            final(kv)@ == dset_state(old(kv)@, req.key@, req.dkey@, req.value),
            dset_reply(old(kv)@, req, r),
    {
        match kv.dset(req.key, req.dkey, req.value) {
            Ok(n) => Ok(DSetResponse { count: n as u64, dset_time: Some(current_time()) }),
            Err(e) => Err(e),
        }
    }

    pub fn handle_dget(kv: &Store, req: DGetRequest) -> (r: Result<DGetResponse, StoreError>)
        requires
            kv.wf(),
        ensures
            dget_reply(kv@, req, r),
    {
        match kv.dget(&req.key, &req.dkey) {
            Ok(v) => Ok(DGetResponse { value: Some(v) }),
            Err(e) => Err(e),
        }
    }

    pub fn handle_dhas(kv: &Store, req: DHasRequest) -> (r: Result<DHasResponse, StoreError>)
        requires
            kv.wf(),
        ensures
            dhas_reply(kv@, req, r),
    {
        match kv.dhas(&req.key, &req.dkey) {
            Ok(found) => Ok(DHasResponse { found }),
            Err(e) => Err(e),
        }
    }

    pub fn handle_pop(kv: &mut Store, req: PopRequest) -> (r: Result<PopResponse, StoreError>)
        requires
            old(kv).wf(),
        ensures
            final(kv).wf(),
            final(kv)@ == pop_state(old(kv)@, req.key@, req.front),
            pop_reply(old(kv)@, req, r),
    {
        match kv.pop(&req.key, req.front) {
            Ok(v) => Ok(PopResponse { value: Some(v), pop_time: Some(current_time()) }),
            Err(e) => Err(e),
        }
    }

    pub fn handle_qlen(kv: &Store, req: QLenRequest) -> (r: Result<QLenResponse, StoreError>)
        requires
            kv.wf(),
        ensures
            qlen_reply(kv@, req, r),
    {
        match kv.qlen(&req.key) {
            Ok(n) => Ok(QLenResponse { count: n as u64 }),
            Err(e) => Err(e),
        }
    }

    pub fn handle_push(kv: &mut Store, req: PushRequest) -> (r: Result<PushResponse, StoreError>)
        requires
            old(kv).wf(),
        ensures
            final(kv).wf(),
            final(kv)@ == push_state(old(kv)@, req.key@, req.value, req.front),
            push_reply(old(kv)@, req, r),
    {
        match kv.push(req.key, req.value, req.front) {
            Ok(n) => Ok(PushResponse { count: n as u64, push_time: Some(current_time()) }),
            Err(e) => Err(e),
        }
    }

    pub fn handle_sadd(kv: &mut Store, req: SAddRequest) -> (r: Result<SAddResponse, StoreError>)
        requires
            old(kv).wf(),
        ensures
            final(kv).wf(),
            final(kv)@ == sadd_state(old(kv)@, req.key@, req.val@),
            sadd_reply(old(kv)@, req, r),
    {
        match kv.sadd(req.key, req.val) {
            Ok(n) => Ok(SAddResponse { count: n as u64, sadd_time: Some(current_time()) }),
            Err(e) => Err(e),
        }
    }

    pub fn handle_sdel(kv: &mut Store, req: SDelRequest) -> (r: Result<SDelResponse, StoreError>)
        requires
            old(kv).wf(),
        ensures
            final(kv).wf(),
            final(kv)@ == sdel_state(old(kv)@, req.key@, req.val@),
            sdel_reply(old(kv)@, req, r),
    {
        match kv.sdel(&req.key, &req.val) {
            Ok(n) => Ok(SDelResponse { count: n as u64, sdel_time: Some(current_time()) }),
            Err(e) => Err(e),
        }
    }

    pub fn handle_slen(kv: &Store, req: SLenRequest) -> (r: Result<SLenResponse, StoreError>)
        requires
            kv.wf(),
        ensures
            slen_reply(kv@, req, r),
    {
        match kv.slen(&req.key) {
            Ok(n) => Ok(SLenResponse { count: n as u64 }),
            Err(e) => Err(e),
        }
    }

    pub fn handle_del(kv: &mut Store, req: DelRequest) -> (r: Result<DelResponse, StoreError>)
        requires
            old(kv).wf(),
        ensures
            final(kv).wf(),
            final(kv)@ == del_state(old(kv)@, req.key@),
            del_reply(r),
    {
        kv.del(&req.key);
        Ok(DelResponse { del_time: Some(current_time()) })
    }

    /// Checks the bounds and collects, in ascending order, at most
    /// `conf.max_range` keys between them.
    pub fn handle_range(kv: &Store, req: RangeRequest, conf: &Conf) -> (r: Result<
        Vec<Vec<u8>>,
        StoreError,
    >)
        requires
            kv.wf(),
        ensures
            range_reply(kv@, req, conf.max_range, r),
    {
        let l = match bound_convert(req.lower) {
            Ok(l) => l,
            Err(e) => return Err(e),
        };
        let u = match bound_convert(req.upper) {
            Ok(u) => u,
            Err(e) => return Err(e),
        };
        if let Err(e) = check_bound(&l, &u) {
            return Err(e);
        }
        Ok(kv.range_keys(&l, &u, conf.max_range))
    }

    /// Runs this command against the store to completion.
    pub fn handle(self, kv: &mut Store, conf: &Conf) -> (r: Reply)
        requires
            old(kv).wf(),
        ensures
            final(kv).wf(),
            final(kv)@ == next_state(old(kv)@, self),
            reply_agrees(old(kv)@, self, conf.max_range, r),
    {
        match self {
            Req::SetScalar(q) => Reply::SetScalar(Req::handle_set(kv, q)),
            Req::Get(q) => Reply::Get(Req::handle_get(kv, q)),
            Req::DSet(q) => Reply::DSet(Req::handle_dset(kv, q)),
            Req::DGet(q) => Reply::DGet(Req::handle_dget(kv, q)),
            Req::DHas(q) => Reply::DHas(Req::handle_dhas(kv, q)),
            Req::Push(q) => Reply::Push(Req::handle_push(kv, q)),
            Req::Pop(q) => Reply::Pop(Req::handle_pop(kv, q)),
            Req::QLen(q) => Reply::QLen(Req::handle_qlen(kv, q)),
            Req::SAdd(q) => Reply::SAdd(Req::handle_sadd(kv, q)),
            Req::SDel(q) => Reply::SDel(Req::handle_sdel(kv, q)),
            Req::SLen(q) => Reply::SLen(Req::handle_slen(kv, q)),
            Req::Del(q) => Reply::Del(Req::handle_del(kv, q)),
            Req::Range(q) => Reply::Range(Req::handle_range(kv, q, conf)),
        }
    }
}

} // verus!
