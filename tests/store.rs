use core::cmp::Ordering;

use memdatabase_store::error::{ErrorKind, StoreError};
use memdatabase_store::key_order::{compare_keys, KeyBound};
use memdatabase_store::store::Store;
use memdatabase_store::svc::{
    bound2t, bound_convert, bounds2ord, check_bound, Bound, BoundKind, Conf, DGetRequest,
    DHasRequest, DSetRequest, DelRequest, GetRequest, PopRequest, PushRequest, QLenRequest,
    RangeRequest, Reply, Req, SAddRequest, SDelRequest, SLenRequest, SetRequest,
};
use prost_types::Value;

fn k(s: &str) -> Vec<u8> {
    s.as_bytes().to_vec()
}

fn incl(key: Vec<u8>) -> Option<Bound> {
    Some(Bound { bound: Some(BoundKind::Included(key)) })
}

fn excl(key: Vec<u8>) -> Option<Bound> {
    Some(Bound { bound: Some(BoundKind::Excluded(key)) })
}

fn push(kv: &mut Store, key: &str, v: Value, front: bool) -> Result<u64, StoreError> {
    Req::handle_push(kv, PushRequest { key: k(key), value: Some(v), front }).map(|r| r.count)
}

fn pop(kv: &mut Store, key: &str, front: bool) -> Result<Value, StoreError> {
    Req::handle_pop(kv, PopRequest { key: k(key), front }).map(|r| r.value.unwrap())
}

fn qlen(kv: &Store, key: &str) -> Result<u64, StoreError> {
    Req::handle_qlen(kv, QLenRequest { key: k(key) }).map(|r| r.count)
}

fn sadd(kv: &mut Store, key: &str, m: &str) -> Result<u64, StoreError> {
    Req::handle_sadd(kv, SAddRequest { key: k(key), val: k(m) }).map(|r| r.count)
}

fn slen(kv: &Store, key: &str) -> Result<u64, StoreError> {
    Req::handle_slen(kv, SLenRequest { key: k(key) }).map(|r| r.count)
}

fn get(kv: &Store, key: &str) -> Result<Value, StoreError> {
    Req::handle_get(kv, GetRequest { key: k(key) }).map(|r| r.value.unwrap())
}

#[test]
fn set_then_get_returns_value() {
    let mut kv = Store::new();
    let v = Value::from("hello");
    let r = Req::handle_set(&mut kv, SetRequest { key: k("a"), value: Some(v.clone()) }).unwrap();
    assert!(r.set_time.is_some());
    assert_eq!(get(&kv, "a"), Ok(v));
    let w = Value::from(2.5);
    Req::handle_set(&mut kv, SetRequest { key: k("a"), value: Some(w.clone()) }).unwrap();
    assert_eq!(get(&kv, "a"), Ok(w));
}

#[test]
fn set_without_value_is_invalid_and_changes_nothing() {
    let mut kv = Store::new();
    let r = Req::handle_set(&mut kv, SetRequest { key: k("a"), value: None });
    let e = r.err().unwrap();
    assert_eq!(e, StoreError::MissingValue);
    assert_eq!(e.kind(), ErrorKind::InvalidArgument);
    assert_eq!(get(&kv, "a"), Err(StoreError::KeyNotFound));
}

#[test]
fn get_missing_and_wrong_type() {
    let mut kv = Store::new();
    assert_eq!(get(&kv, "x"), Err(StoreError::KeyNotFound));
    assert_eq!(StoreError::KeyNotFound.kind(), ErrorKind::NotFound);
    sadd(&mut kv, "x", "m").unwrap();
    assert_eq!(get(&kv, "x"), Err(StoreError::WrongType));
}

#[test]
fn del_absent_succeeds_and_changes_nothing() {
    let mut kv = Store::new();
    Req::handle_set(&mut kv, SetRequest { key: k("a"), value: Some(Value::from(true)) }).unwrap();
    let r = Req::handle_del(&mut kv, DelRequest { key: k("zz") }).unwrap();
    assert!(r.del_time.is_some());
    assert_eq!(get(&kv, "a"), Ok(Value::from(true)));
    Req::handle_del(&mut kv, DelRequest { key: k("a") }).unwrap();
    assert_eq!(get(&kv, "a"), Err(StoreError::KeyNotFound));
}

#[test]
fn sadd_twice_same_size() {
    let mut kv = Store::new();
    assert_eq!(sadd(&mut kv, "s", "m"), Ok(1));
    assert_eq!(sadd(&mut kv, "s", "m"), Ok(1));
    assert_eq!(slen(&kv, "s"), Ok(1));
}

#[test]
fn slen_tracks_adds_and_removes() {
    let mut kv = Store::new();
    assert_eq!(slen(&kv, "s"), Err(StoreError::KeyNotFound));
    assert_eq!(sadd(&mut kv, "s", "a"), Ok(1));
    assert_eq!(sadd(&mut kv, "s", "b"), Ok(2));
    assert_eq!(sadd(&mut kv, "s", "c"), Ok(3));
    let r = Req::handle_sdel(&mut kv, SDelRequest { key: k("s"), val: k("b") }).unwrap();
    assert_eq!(r.count, 2);
    assert!(r.sdel_time.is_some());
    let r = Req::handle_sdel(&mut kv, SDelRequest { key: k("s"), val: k("zz") }).unwrap();
    assert_eq!(r.count, 2);
    assert_eq!(slen(&kv, "s"), Ok(2));
    let e = Req::handle_sdel(&mut kv, SDelRequest { key: k("none"), val: k("a") }).err();
    assert_eq!(e, Some(StoreError::KeyNotFound));
}

#[test]
fn push_front_then_pop_front_returns_value() {
    let mut kv = Store::new();
    assert_eq!(push(&mut kv, "q", Value::from(1.0), false), Ok(1));
    assert_eq!(push(&mut kv, "q", Value::from(2.0), true), Ok(2));
    assert_eq!(pop(&mut kv, "q", true), Ok(Value::from(2.0)));
    assert_eq!(qlen(&kv, "q"), Ok(1));
}

#[test]
fn deque_order_at_both_ends() {
    let mut kv = Store::new();
    push(&mut kv, "q", Value::from("a"), false).unwrap();
    push(&mut kv, "q", Value::from("b"), false).unwrap();
    push(&mut kv, "q", Value::from("c"), true).unwrap();
    assert_eq!(pop(&mut kv, "q", false), Ok(Value::from("b")));
    assert_eq!(pop(&mut kv, "q", true), Ok(Value::from("c")));
    assert_eq!(pop(&mut kv, "q", true), Ok(Value::from("a")));
}

#[test]
fn qlen_after_n_pushes_and_m_pops() {
    let mut kv = Store::new();
    for i in 0..7 {
        push(&mut kv, "q", Value::from(i as f64), i % 2 == 0).unwrap();
    }
    for i in 0..3 {
        pop(&mut kv, "q", i % 2 == 1).unwrap();
    }
    assert_eq!(qlen(&kv, "q"), Ok(4));
}

#[test]
fn pop_on_drained_deque_is_not_found_and_key_stays() {
    let mut kv = Store::new();
    push(&mut kv, "q", Value::from(1.0), true).unwrap();
    push(&mut kv, "q", Value::from(2.0), true).unwrap();
    pop(&mut kv, "q", false).unwrap();
    pop(&mut kv, "q", true).unwrap();
    let e = pop(&mut kv, "q", true).err().unwrap();
    assert_eq!(e, StoreError::EmptyDeque);
    assert_eq!(e.kind(), ErrorKind::NotFound);
    assert_eq!(qlen(&kv, "q"), Ok(0));
    assert_eq!(pop(&mut kv, "none", true), Err(StoreError::KeyNotFound));
    assert_eq!(qlen(&kv, "none"), Err(StoreError::KeyNotFound));
}

#[test]
fn push_on_scalar_is_invalid_and_keeps_scalar() {
    let mut kv = Store::new();
    let v = Value::from("keep");
    Req::handle_set(&mut kv, SetRequest { key: k("a"), value: Some(v.clone()) }).unwrap();
    let e = push(&mut kv, "a", Value::from(1.0), true).err().unwrap();
    assert_eq!(e, StoreError::WrongType);
    assert_eq!(e.kind(), ErrorKind::InvalidArgument);
    assert_eq!(get(&kv, "a"), Ok(v.clone()));
    assert_eq!(pop(&mut kv, "a", true), Err(StoreError::WrongType));
    assert_eq!(qlen(&kv, "a"), Err(StoreError::WrongType));
    assert_eq!(sadd(&mut kv, "a", "m"), Err(StoreError::WrongType));
    assert_eq!(get(&kv, "a"), Ok(v));
}

#[test]
fn push_without_value_is_invalid() {
    let mut kv = Store::new();
    let r = Req::handle_push(&mut kv, PushRequest { key: k("q"), value: None, front: true });
    assert_eq!(r.err(), Some(StoreError::MissingValue));
    assert_eq!(qlen(&kv, "q"), Err(StoreError::KeyNotFound));
}

#[test]
fn range_lower_above_upper_is_invalid() {
    let mut kv = Store::new();
    for i in 0u8..10 {
        Req::handle_set(&mut kv, SetRequest { key: vec![i], value: Some(Value::from(true)) }).unwrap();
    }
    let req = RangeRequest { lower: incl(vec![5]), upper: incl(vec![3]) };
    let e = Req::handle_range(&kv, req, &Conf::default()).err().unwrap();
    assert_eq!(e, StoreError::LowerAboveUpper);
    assert_eq!(e.kind(), ErrorKind::InvalidArgument);
}

#[test]
fn range_truncates_at_max_range() {
    let mut kv = Store::new();
    let present: Vec<u8> = vec![19, 0, 3, 7, 1, 12, 5, 14, 9, 2, 17, 11, 8, 16, 4];
    for i in present.iter() {
        Req::handle_sadd(&mut kv, SAddRequest { key: vec![*i], val: k("m") }).unwrap();
    }
    Req::handle_set(&mut kv, SetRequest { key: vec![20], value: Some(Value::from(1.0)) }).unwrap();
    let conf = Conf::default();
    assert_eq!(conf.max_range, 10);
    let req = RangeRequest { lower: incl(vec![0]), upper: excl(vec![20]) };
    let keys = Req::handle_range(&kv, req, &conf).unwrap();
    let expected: Vec<Vec<u8>> = vec![0u8, 1, 2, 3, 4, 5, 7, 8, 9, 11].into_iter().map(|b| vec![b]).collect();
    assert_eq!(keys, expected);
}

#[test]
fn range_respects_bound_kinds() {
    let mut kv = Store::new();
    for s in ["a", "ab", "b", "ba", "c"] {
        sadd(&mut kv, s, "m").unwrap();
    }
    let conf = Conf { max_range: 100 };
    let keys = Req::handle_range(&kv, RangeRequest { lower: excl(k("a")), upper: incl(k("ba")) }, &conf).unwrap();
    assert_eq!(keys, vec![k("ab"), k("b"), k("ba")]);
    let keys = Req::handle_range(&kv, RangeRequest { lower: incl(k("a")), upper: excl(k("b")) }, &conf).unwrap();
    assert_eq!(keys, vec![k("a"), k("ab")]);
    let keys = Req::handle_range(&kv, RangeRequest { lower: incl(k("b")), upper: incl(k("b")) }, &conf).unwrap();
    assert_eq!(keys, vec![k("b")]);
    let keys = Req::handle_range(&kv, RangeRequest { lower: excl(k("b")), upper: excl(k("b")) }, &conf).unwrap();
    assert!(keys.is_empty());
    let keys = Req::handle_range(&kv, RangeRequest { lower: incl(k("a")), upper: incl(k("c")) }, &Conf { max_range: 0 }).unwrap();
    assert!(keys.is_empty());
}

#[test]
fn range_missing_or_unbounded_bound_is_invalid() {
    let kv = Store::new();
    let conf = Conf::default();
    let r = Req::handle_range(&kv, RangeRequest { lower: None, upper: incl(k("b")) }, &conf);
    assert_eq!(r.err(), Some(StoreError::InvalidBound));
    let r = Req::handle_range(&kv, RangeRequest { lower: incl(k("a")), upper: Some(Bound { bound: None }) }, &conf);
    assert_eq!(r.err(), Some(StoreError::InvalidBound));
    assert_eq!(StoreError::InvalidBound.kind(), ErrorKind::InvalidArgument);
}

#[test]
fn bound_helpers() {
    assert!(matches!(bound_convert(incl(k("a"))), Ok(KeyBound::Included(v)) if v == k("a")));
    assert!(matches!(bound_convert(excl(k("a"))), Ok(KeyBound::Excluded(v)) if v == k("a")));
    assert!(matches!(bound_convert(None), Err(StoreError::InvalidBound)));
    assert_eq!(bound2t(&KeyBound::Excluded(k("x"))), Ok(&k("x")));
    assert_eq!(bound2t(&KeyBound::Unbounded), Err(StoreError::InvalidBound));
    let a = KeyBound::Included(k("a"));
    let b = KeyBound::Excluded(k("b"));
    assert_eq!(bounds2ord(&a, &b), Ok(Ordering::Less));
    assert_eq!(bounds2ord(&b, &a), Ok(Ordering::Greater));
    assert_eq!(bounds2ord(&a, &a), Ok(Ordering::Equal));
    assert_eq!(bounds2ord(&a, &KeyBound::Unbounded), Err(StoreError::InvalidBound));
    assert_eq!(check_bound(&a, &b), Ok(()));
    assert_eq!(check_bound(&a, &a), Ok(()));
    assert_eq!(check_bound(&b, &a), Err(StoreError::LowerAboveUpper));
}

#[test]
fn key_order_is_bytewise_lexicographic() {
    assert_eq!(compare_keys(&k("ab"), &k("b")), Ordering::Less);
    assert_eq!(compare_keys(&k("a"), &k("ab")), Ordering::Less);
    assert_eq!(compare_keys(&k(""), &k("a")), Ordering::Less);
    assert_eq!(compare_keys(&vec![255], &vec![1, 2]), Ordering::Greater);
    assert_eq!(compare_keys(&k("abc"), &k("abc")), Ordering::Equal);
}

#[test]
fn concurrent_sadds_in_either_order() {
    for order in [["x", "y"], ["y", "x"]] {
        let mut kv = Store::new();
        sadd(&mut kv, "k", order[0]).unwrap();
        assert_eq!(sadd(&mut kv, "k", order[1]), Ok(2));
        assert_eq!(slen(&kv, "k"), Ok(2));
        let conf = Conf::default();
        assert!(matches!(
            Req::SAdd(SAddRequest { key: k("k"), val: k("x") }).handle(&mut kv, &conf),
            Reply::SAdd(Ok(r)) if r.count == 2
        ));
    }
}

#[test]
fn dictionary_scenario() {
    let mut kv = Store::new();
    let r = Req::handle_dset(&mut kv, DSetRequest { key: k("k"), dkey: k("a"), value: Some(Value::from(1.0)) }).unwrap();
    assert_eq!(r.count, 1);
    assert!(r.dset_time.is_some());
    let r = Req::handle_dset(&mut kv, DSetRequest { key: k("k"), dkey: k("b"), value: Some(Value::from(2.0)) }).unwrap();
    assert_eq!(r.count, 2);
    let r = Req::handle_dset(&mut kv, DSetRequest { key: k("k"), dkey: k("a"), value: Some(Value::from(1.0)) }).unwrap();
    assert_eq!(r.count, 2);
    let v = Req::handle_dget(&kv, DGetRequest { key: k("k"), dkey: k("a") }).unwrap();
    assert_eq!(v.value, Some(Value::from(1.0)));
    let h = Req::handle_dhas(&kv, DHasRequest { key: k("k"), dkey: k("c") }).unwrap();
    assert!(!h.found);
    let h = Req::handle_dhas(&kv, DHasRequest { key: k("k"), dkey: k("b") }).unwrap();
    assert!(h.found);
    let e = Req::handle_dhas(&kv, DHasRequest { key: k("k2"), dkey: k("a") }).err();
    assert_eq!(e, Some(StoreError::KeyNotFound));
}

#[test]
fn dictionary_errors() {
    let mut kv = Store::new();
    let e = Req::handle_dget(&kv, DGetRequest { key: k("d"), dkey: k("a") }).err();
    assert_eq!(e, Some(StoreError::KeyNotFound));
    Req::handle_dset(&mut kv, DSetRequest { key: k("d"), dkey: k("a"), value: Some(Value::from(1.0)) }).unwrap();
    let e = Req::handle_dget(&kv, DGetRequest { key: k("d"), dkey: k("zz") }).err();
    assert_eq!(e, Some(StoreError::SubKeyNotFound));
    assert_eq!(StoreError::SubKeyNotFound.kind(), ErrorKind::NotFound);
    let e = Req::handle_dset(&mut kv, DSetRequest { key: k("d"), dkey: k("b"), value: None }).err();
    assert_eq!(e, Some(StoreError::MissingValue));
    let v = Req::handle_dget(&kv, DGetRequest { key: k("d"), dkey: k("a") }).unwrap();
    assert_eq!(v.value, Some(Value::from(1.0)));
    push(&mut kv, "q", Value::from(1.0), true).unwrap();
    let e = Req::handle_dset(&mut kv, DSetRequest { key: k("q"), dkey: k("a"), value: Some(Value::from(1.0)) }).err();
    assert_eq!(e, Some(StoreError::WrongType));
    let e = Req::handle_dhas(&kv, DHasRequest { key: k("q"), dkey: k("a") }).err();
    assert_eq!(e, Some(StoreError::WrongType));
    assert_eq!(qlen(&kv, "q"), Ok(1));
}

#[test]
fn handle_dispatches_each_command() {
    let mut kv = Store::new();
    let conf = Conf::default();
    let r = Req::SetScalar(SetRequest { key: k("a"), value: Some(Value::from("v")) }).handle(&mut kv, &conf);
    assert!(matches!(r, Reply::SetScalar(Ok(_))));
    let r = Req::Get(GetRequest { key: k("a") }).handle(&mut kv, &conf);
    assert!(matches!(r, Reply::Get(Ok(g)) if g.value == Some(Value::from("v"))));
    let r = Req::Push(PushRequest { key: k("q"), value: Some(Value::from(3.0)), front: false }).handle(&mut kv, &conf);
    assert!(matches!(r, Reply::Push(Ok(p)) if p.count == 1));
    let r = Req::QLen(QLenRequest { key: k("q") }).handle(&mut kv, &conf);
    assert!(matches!(r, Reply::QLen(Ok(q)) if q.count == 1));
    let r = Req::Pop(PopRequest { key: k("q"), front: false }).handle(&mut kv, &conf);
    assert!(matches!(r, Reply::Pop(Ok(p)) if p.value == Some(Value::from(3.0)) && p.pop_time.is_some()));
    let r = Req::Range(RangeRequest { lower: incl(k("a")), upper: incl(k("z")) }).handle(&mut kv, &conf);
    assert!(matches!(r, Reply::Range(Ok(keys)) if keys == vec![k("a"), k("q")]));
    let r = Req::Del(DelRequest { key: k("a") }).handle(&mut kv, &conf);
    assert!(matches!(r, Reply::Del(Ok(_))));
    let r = Req::Get(GetRequest { key: k("a") }).handle(&mut kv, &conf);
    assert!(matches!(r, Reply::Get(Err(StoreError::KeyNotFound))));
}

#[test]
fn error_messages_are_present() {
    assert_eq!(StoreError::EmptyDeque.message(), "the queue is empty");
    assert_eq!(StoreError::LowerAboveUpper.message(), "lower > upper");
    assert!(!StoreError::WrongType.message().is_empty());
}
