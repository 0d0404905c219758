use stay_awake::access::{check_access, AccessError};
use stay_awake::order::{join, sorted_copy, str_le_exec};
use stay_awake::registry::State;
use stay_awake::request::PowerRequest;
use stay_awake::token::ID_LEN;

fn s(x: &str) -> String {
    x.to_string()
}

fn open_state() -> State {
    State::new(None, s("Remote keep-awake leases"))
}

#[test]
fn no_secret_admits_everyone() {
    let st = open_state();
    assert_eq!(st.check_password(None), Ok(()));
    assert_eq!(st.check_password(Some(s("anything"))), Ok(()));
    assert_eq!(st.check_password(Some(s(""))), Ok(()));
}

#[test]
fn secret_checks_credential() {
    let st = State::new(Some(s("s")), s("r"));
    assert_eq!(st.check_password(None), Err(AccessError::MissingPassword));
    assert_eq!(st.check_password(Some(s("s"))), Ok(()));
    assert_eq!(st.check_password(Some(s("t"))), Err(AccessError::InvalidPassword));
    assert_eq!(st.check_password(Some(s("S"))), Err(AccessError::InvalidPassword));
    assert_eq!(st.check_password(Some(s("s "))), Err(AccessError::InvalidPassword));
}

#[test]
fn empty_secret_disables_checking() {
    let st = State::new(Some(s("")), s("r"));
    assert_eq!(st.check_password(None), Ok(()));
    assert_eq!(st.check_password(Some(s("whatever"))), Ok(()));
}

#[test]
fn check_access_free_function() {
    assert_eq!(check_access(&None, &None), Ok(()));
    assert_eq!(check_access(&Some(s("pw")), &None), Err(AccessError::MissingPassword));
    assert_eq!(check_access(&Some(s("pw")), &Some(s("pw"))), Ok(()));
    assert_eq!(check_access(&Some(s("pw")), &Some(s("pW"))), Err(AccessError::InvalidPassword));
}

#[test]
fn create_then_end_twice() {
    let mut st = open_state();
    let c = st.keep_awake(s("x")).expect("a fresh identifier");
    let e = st.task_done(c.id.clone()).expect("the lease is live");
    assert_eq!(e.reason, "x");
    assert!(st.task_done(c.id).is_none());
    assert!(st.list_reasons().is_empty());
}

#[test]
fn same_reason_twice_gives_two_leases() {
    let mut st = open_state();
    let a = st.keep_awake(s("build")).unwrap();
    let b = st.keep_awake(s("build")).unwrap();
    assert_ne!(a.id, b.id);
    let map = st.list_wakers_map();
    assert_eq!(map.len(), 2);
    assert!(map.iter().any(|(k, v)| *k == a.id && v == "build"));
    assert!(map.iter().any(|(k, v)| *k == b.id && v == "build"));
    assert_eq!(st.list_reasons(), vec![s("build"), s("build")]);
    assert_eq!(st.list_wakers(), "build, build");
}

#[test]
fn shared_request_toggles_on_first_and_last() {
    let mut st = open_state();
    assert!(!st.is_inhibiting());
    let a = st.keep_awake(s("a")).unwrap();
    assert!(a.set_request);
    assert!(st.is_inhibiting());
    let b = st.keep_awake(s("b")).unwrap();
    assert!(!b.set_request);
    let c = st.keep_awake(s("c")).unwrap();
    assert!(!c.set_request);
    let eb = st.task_done(b.id).unwrap();
    assert!(!eb.clear_request);
    let ea = st.task_done(a.id).unwrap();
    assert!(!ea.clear_request);
    assert!(st.is_inhibiting());
    let ec = st.task_done(c.id).unwrap();
    assert!(ec.clear_request);
    assert!(!st.is_inhibiting());
    let d = st.keep_awake(s("d")).unwrap();
    assert!(d.set_request);
}

#[test]
fn release_all_clears_once() {
    let mut st = open_state();
    assert!(!st.release_all());
    st.keep_awake(s("a")).unwrap();
    st.keep_awake(s("b")).unwrap();
    assert!(st.release_all());
    assert!(!st.is_inhibiting());
    assert!(st.list_wakers_map().is_empty());
    assert!(!st.release_all());
}

#[test]
fn identifiers_are_fresh_alphanumeric_tokens() {
    let mut st = open_state();
    let mut ids: Vec<String> = Vec::new();
    for i in 0..50 {
        let c = st.keep_awake(format!("job {}", i)).unwrap();
        assert_eq!(c.id.chars().count(), ID_LEN);
        assert_eq!(ID_LEN, 30);
        assert!(c.id.chars().all(|ch| ch.is_ascii_alphanumeric()));
        assert!(!ids.contains(&c.id));
        ids.push(c.id);
    }
    assert_eq!(st.list_wakers_map().len(), 50);
}

#[test]
fn taken_identifier_is_refused() {
    let mut st = open_state();
    let c = st.keep_awake_with_id(s("abc"), s("first")).unwrap();
    assert_eq!(c.id, "abc");
    assert!(c.set_request);
    assert!(st.keep_awake_with_id(s("abc"), s("second")).is_none());
    assert_eq!(st.list_reasons(), vec![s("first")]);
    let e = st.task_done(s("abc")).unwrap();
    assert_eq!(e.reason, "first");
    assert!(e.clear_request);
}

#[test]
fn unknown_identifier_ends_nothing() {
    let mut st = open_state();
    st.keep_awake_with_id(s("id1"), s("a")).unwrap();
    assert!(st.task_done(s("id2")).is_none());
    assert!(st.task_done(s("")).is_none());
    assert_eq!(st.list_reasons(), vec![s("a")]);
    assert!(st.is_inhibiting());
}

#[test]
fn listing_is_sorted_with_duplicates() {
    let mut st = open_state();
    for r in ["render", "backup", "Zeta", "backup", "", "build"] {
        st.keep_awake(s(r)).unwrap();
    }
    assert_eq!(
        st.list_reasons(),
        vec![s(""), s("Zeta"), s("backup"), s("backup"), s("build"), s("render")]
    );
    assert_eq!(st.list_wakers(), ", Zeta, backup, backup, build, render");
}

#[test]
fn empty_listing() {
    let st = open_state();
    assert_eq!(st.list_wakers(), "");
    assert!(st.list_reasons().is_empty());
    assert_eq!(st.list_wakers_json(), "{}");
}

#[test]
fn json_listing_maps_id_to_reason() {
    let mut st = open_state();
    st.keep_awake_with_id(s("k2"), s("second")).unwrap();
    st.keep_awake_with_id(s("k1"), s("first \"quoted\"")).unwrap();
    assert_eq!(st.list_wakers_json(), "{\"k1\":\"first \\\"quoted\\\"\",\"k2\":\"second\"}");
}

#[test]
fn string_order_is_lexicographic() {
    assert!(str_le_exec("", ""));
    assert!(str_le_exec("", "a"));
    assert!(!str_le_exec("a", ""));
    assert!(str_le_exec("ab", "abc"));
    assert!(!str_le_exec("abc", "ab"));
    assert!(str_le_exec("B", "a"));
    assert!(str_le_exec("z", "é"));
    assert!(!str_le_exec("é", "z"));
    assert!(str_le_exec("same", "same"));
}

#[test]
fn sorting_and_joining() {
    let v = vec![s("pear"), s("apple"), s("fig"), s("apple")];
    let sorted = sorted_copy(&v);
    assert_eq!(sorted, vec![s("apple"), s("apple"), s("fig"), s("pear")]);
    assert_eq!(join(&sorted, " | "), "apple | apple | fig | pear");
    assert_eq!(join(&vec![s("one")], ", "), "one");
    assert_eq!(join(&Vec::new(), ", "), "");
}

#[test]
fn power_request_transitions_are_idempotent() {
    let mut r = PowerRequest::new(s("reason"));
    assert_eq!(r.reason(), "reason");
    assert!(!r.is_active());
    assert!(!r.leave());
    assert!(r.enter());
    assert!(!r.enter());
    assert!(r.is_active());
    assert!(r.leave());
    assert!(!r.leave());
    assert!(!r.is_active());
    assert_eq!(r.reason(), "reason");
}
