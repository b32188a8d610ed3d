use logins::clock::time_stamp_of;
use logins::db::{ImportOutcome, LoginDb};
use logins::interrupt::{SqlInterruptHandle, SqlInterruptScope};
use std::sync::atomic::AtomicUsize;
use std::sync::Arc;
use logins::error::{Error, InvalidLogin};
use logins::login::Login;
use logins::row::{LocalLogin, SyncStatus};
use logins::interrupt::poll;
use logins::urls::{confirm_origin, is_host_within, join_host_port, origin_from_parts, Host};

fn form_login(guid: &str, hostname: &str, target: &str) -> Login {
    Login {
        guid: guid.into(),
        hostname: hostname.into(),
        form_submit_url: Some(target.into()),
        username: "user".into(),
        password: "secret".into(),
        ..Login::default()
    }
}

fn some(s: &str) -> Option<String> {
    Some(s.to_string())
}

#[test]
fn an_origin_is_confirmed_by_its_own_serialisation() {
    assert_eq!(
        confirm_origin("https://a.com".into(), some("https://a.com")),
        some("https://a.com")
    );
    assert_eq!(confirm_origin("https://a.com".into(), some("https://b.com")), None);
    assert_eq!(confirm_origin("https://a.com".into(), None), None);
    assert_eq!(confirm_origin("".into(), some("")), None);
    assert_eq!(confirm_origin("a\0".into(), some("a\0")), None);
    assert_eq!(confirm_origin("null".into(), None), None);
}

#[test]
fn hosts_of_different_kinds_never_belong_together() {
    let domain = Host::Domain("example.com".into());
    let v4 = Host::Ipv4(0x7f00_0001);
    let v6 = Host::Ipv6(1);
    assert!(is_host_within(&domain, &Some(Host::Domain("www.example.com".into()))));
    assert!(is_host_within(&domain, &Some(Host::Domain("example.com".into()))));
    assert!(!is_host_within(&domain, &Some(Host::Domain("example.org".into()))));
    assert!(!is_host_within(&domain, &Some(Host::Ipv4(0x7f00_0001))));
    assert!(!is_host_within(&domain, &None));
    assert!(is_host_within(&v4, &Some(Host::Ipv4(0x7f00_0001))));
    assert!(!is_host_within(&v4, &Some(Host::Ipv4(0x7f00_0002))));
    assert!(!is_host_within(&v4, &Some(Host::Ipv6(0x7f00_0001))));
    assert!(!is_host_within(&v4, &Some(Host::Domain("127.0.0.1".into()))));
    assert!(is_host_within(&v6, &Some(Host::Ipv6(1))));
    assert!(!is_host_within(&v6, &Some(Host::Ipv6(2))));
    assert!(!is_host_within(&v6, &Some(Host::Ipv4(1))));
    assert!(!is_host_within(&v6, &None));
}

#[test]
fn a_port_follows_the_host_behind_a_colon() {
    assert_eq!(join_host_port(some("example.com"), Some(8080)), some("example.com:8080"));
    assert_eq!(join_host_port(some("example.com"), Some(0)), some("example.com:0"));
    assert_eq!(join_host_port(some("example.com"), None), some("example.com"));
    assert_eq!(join_host_port(None, Some(80)), None);
    assert_eq!(join_host_port(None, None), None);
}

#[test]
fn a_login_is_fixed_with_the_origins_at_hand() {
    let l = Login {
        username_field: " name ".into(),
        ..form_login("g", "https://A.com/x", "https://A.com/login")
    };
    let f = l
        .maybe_fixup_with(some("https://a.com"), some("https://a.com"))
        .unwrap()
        .unwrap();
    assert_eq!(f.hostname, "https://a.com");
    assert_eq!(f.form_submit_url, some("https://a.com"));
    assert_eq!(f.username_field, "name");
    assert_eq!(f.guid, "g");
    assert_eq!(f.password, "secret");

    assert!(f
        .maybe_fixup_with(some("https://a.com"), some("https://a.com"))
        .unwrap()
        .is_none());

    match l.maybe_fixup_with(None, some("https://a.com")) {
        Err(Error::InvalidLogin(e)) => assert_eq!(e, InvalidLogin::InvalidOrigin),
        other => panic!("unexpected {:?}", other),
    }
    match l.maybe_fixup_with(some("https://a.com"), None) {
        Err(Error::InvalidLogin(e)) => assert_eq!(e, InvalidLogin::InvalidFormActionOrigin),
        other => panic!("unexpected {:?}", other),
    }
    let no_password = Login {
        password: "".into(),
        ..l.clone()
    };
    match no_password.maybe_fixup_with(None, None) {
        Err(Error::InvalidLogin(e)) => assert_eq!(e, InvalidLogin::EmptyPassword),
        other => panic!("unexpected {:?}", other),
    }

    let empty_target = form_login("g", "https://a.com", "");
    assert!(empty_target
        .maybe_fixup_with(some("https://a.com"), some("ignored"))
        .unwrap()
        .is_none());
    let realm = Login {
        form_submit_url: None,
        http_realm: some("realm"),
        ..form_login("g", "https://a.com", "")
    };
    let moved = realm
        .maybe_fixup_with(some("https://b.com"), None)
        .unwrap()
        .unwrap();
    assert_eq!(moved.hostname, "https://b.com");
    assert_eq!(moved.form_submit_url, None);
    assert_eq!(moved.http_realm, some("realm"));
}

#[test]
fn a_login_is_validated_with_the_origin_at_hand() {
    let l = form_login("g", "whatever", "https://a.com");
    assert!(l.check_valid_with(some("https://a.com")).is_ok());
    match l.check_valid_with(some("https://b.com")) {
        Err(Error::InvalidLogin(e)) => assert_eq!(e, InvalidLogin::InvalidFormActionOrigin),
        other => panic!("unexpected {:?}", other),
    }
    assert!(l.check_valid_with(None).is_err());
    let empty_target = form_login("g", "whatever", "");
    assert!(empty_target.check_valid_with(None).is_ok());
    assert!(empty_target.check_valid_with(some("x")).is_ok());
    let nothing = Login {
        hostname: "".into(),
        ..l.clone()
    };
    assert_eq!(
        nothing.check_valid_with(some("https://a.com")).unwrap_err().label(),
        "InvalidLogin::EmptyOrigin"
    );
}

#[test]
fn a_canonical_login_is_stored_as_it_is() {
    let mut db = LoginDb::open_in_memory().unwrap();
    let odd = form_login("", "stored as given", "also as given");
    let stored = db.add_fixed_at(odd, 5, "fresh".into()).unwrap();
    assert_eq!(stored.guid, "fresh");
    assert_eq!(stored.hostname, "stored as given");
    assert_eq!(stored.form_submit_url, some("also as given"));
    assert_eq!(stored.time_created, 5);
    assert_eq!(stored.times_used, 1);

    let dupe = form_login("", "stored as given", "also as given");
    match db.add_fixed_at(dupe, 6, "other".into()) {
        Err(Error::InvalidLogin(e)) => assert_eq!(e, InvalidLogin::DuplicateLogin),
        other => panic!("unexpected {:?}", other),
    }
    let taken = form_login("fresh", "elsewhere", "also as given");
    match db.add_fixed_at(taken, 6, "other".into()) {
        Err(Error::DuplicateGuid(g)) => assert_eq!(g, "fresh"),
        other => panic!("unexpected {:?}", other),
    }

    let mut changed = stored.clone();
    changed.password = "new".into();
    changed.hostname = "moved".into();
    db.update_fixed_at(changed, 9).unwrap();
    let rows: Vec<LocalLogin> = db.local_rows();
    assert_eq!(rows.len(), 1);
    assert_eq!(rows[0].login.hostname, "moved");
    assert_eq!(rows[0].login.password, "new");
    assert_eq!(rows[0].login.time_password_changed, 9);
    assert_eq!(rows[0].login.time_last_used, 9);
    assert_eq!(rows[0].login.time_created, 5);
    assert_eq!(rows[0].login.times_used, 2);
    assert_eq!(rows[0].local_modified, Some(9));
    assert_eq!(rows[0].sync_status, SyncStatus::New);

    let unknown = form_login("nobody", "x", "y");
    match db.update_fixed_at(unknown, 9) {
        Err(Error::NoSuchRecord(g)) => assert_eq!(g, "nobody"),
        other => panic!("unexpected {:?}", other),
    }
}

#[test]
fn a_canonical_login_is_imported_as_it_is() {
    let mut db = LoginDb::open_in_memory().unwrap();
    let first = form_login("valid-guid", "as given", "target");
    assert!(matches!(
        db.import_fixed(first, 3, "fresh".into()),
        ImportOutcome::Imported
    ));
    let dupe = form_login("other-guid", "as given", "target");
    match db.import_fixed(dupe, 3, "fresh".into()) {
        ImportOutcome::FailedFixup(Error::InvalidLogin(e)) => {
            assert_eq!(e, InvalidLogin::DuplicateLogin)
        }
        other => panic!("unexpected {:?}", other),
    }
    let taken = form_login("valid-guid", "elsewhere", "target");
    match db.import_fixed(taken, 3, "fresh".into()) {
        ImportOutcome::FailedInsert(Error::DuplicateGuid(g)) => assert_eq!(g, "valid-guid"),
        other => panic!("unexpected {:?}", other),
    }
    let renamed = form_login("not,valid", "third", "target");
    assert!(matches!(
        db.import_fixed(renamed, 4, "fresh".into()),
        ImportOutcome::Imported
    ));
    let rows = db.local_rows();
    assert_eq!(rows.len(), 2);
    assert_eq!(rows[0].login.guid, "valid-guid");
    assert_eq!(rows[0].login.time_created, 0);
    assert_eq!(rows[0].local_modified, Some(3));
    assert_eq!(rows[1].login.guid, "fresh");
    assert_eq!(rows[1].login.hostname, "third");
    assert_eq!(rows[1].sync_status, SyncStatus::New);
}

#[test]
fn the_same_login_is_found_with_the_host_and_port_at_hand() {
    let mut db = LoginDb::open_in_memory().unwrap();
    db.add_fixed_at(
        form_login("a", "host", "https://login.example.com:8443"),
        1,
        "fresh".into(),
    )
    .unwrap();
    let probe = form_login("b", "host", "anything");
    assert_eq!(
        db.find_dupe_by(&probe, &some("login.example.com:8443"))
            .unwrap()
            .unwrap()
            .guid,
        "a"
    );
    assert_eq!(
        db.find_dupe_by(&probe, &some("example.com"))
            .unwrap()
            .unwrap()
            .guid,
        "a"
    );
    assert!(db
        .find_dupe_by(&probe, &some("login.example.com:9"))
        .unwrap()
        .is_none());
    assert!(db.find_dupe_by(&probe, &None).unwrap().is_none());
    let other_host = form_login("b", "elsewhere", "anything");
    assert!(db
        .find_dupe_by(&other_host, &some("login.example.com:8443"))
        .unwrap()
        .is_none());
}

#[test]
fn a_scope_notices_a_counter_that_has_moved() {
    let counter = Arc::new(AtomicUsize::new(7));
    let scope = SqlInterruptScope::begun_at(counter.clone(), 7);
    assert!(!scope.notices(7));
    assert!(scope.notices(8));
    assert!(scope.notices(0));
    assert!(scope.err_if_noticed(7).is_ok());
    match scope.err_if_noticed(9) {
        Err(Error::Interrupted) => {}
        other => panic!("unexpected {:?}", other),
    }
    assert!(!scope.was_interrupted());
    assert!(scope.err_if_interrupted().is_ok());

    let handle = SqlInterruptHandle::new(counter.clone());
    handle.interrupt();
    assert!(scope.was_interrupted());
    assert!(scope.err_if_interrupted().is_err());

    let later = SqlInterruptScope::new(counter.clone());
    assert!(!later.was_interrupted());
    let stale = SqlInterruptScope::begun_at(counter, 7);
    assert!(stale.was_interrupted());

    let elsewhere = SqlInterruptHandle::new(Arc::new(AtomicUsize::new(0)));
    elsewhere.interrupt();
    assert!(!later.was_interrupted());
}

#[test]
fn a_handle_reaches_the_scopes_of_its_store_only() {
    let db = LoginDb::open_in_memory().unwrap();
    let other = LoginDb::open_in_memory().unwrap();
    let scope = db.begin_interrupt_scope();
    let foreign = other.begin_interrupt_scope();
    db.new_interrupt_handle().interrupt();
    assert!(scope.was_interrupted());
    assert!(!foreign.was_interrupted());
}

#[test]
fn a_time_stamp_is_never_negative() {
    assert_eq!(time_stamp_of(None), 0);
    assert_eq!(time_stamp_of(Some(0)), 0);
    assert_eq!(time_stamp_of(Some(1_700_000_000_000)), 1_700_000_000_000);
    assert_eq!(time_stamp_of(Some(i64::MAX as u128)), i64::MAX);
    assert_eq!(time_stamp_of(Some(i64::MAX as u128 + 1)), i64::MAX);
    assert_eq!(time_stamp_of(Some(u128::MAX)), i64::MAX);
}

#[test]
fn an_origin_is_put_together_from_its_parts() {
    assert_eq!(
        origin_from_parts(some("https"), some("example.com"), None),
        some("https://example.com")
    );
    assert_eq!(
        origin_from_parts(some("http"), some("[::1]"), Some(8000)),
        some("http://[::1]:8000")
    );
    assert_eq!(origin_from_parts(some("file"), None, None), some("file:"));
    assert_eq!(origin_from_parts(some("data"), None, Some(1)), some("data:"));
    assert_eq!(origin_from_parts(some("moz"), some(""), None), some("moz://"));
    assert_eq!(origin_from_parts(None, some("example.com"), Some(80)), None);
    assert_eq!(origin_from_parts(None, None, None), None);
}

#[test]
fn a_poll_that_is_not_given_says_no() {
    assert!(!poll(None, &[], 0));
    assert!(poll(None, &[true], 0));
    assert!(!poll(None, &[true], 1));
    assert!(!poll(None, &[false, true], 0));
    assert!(poll(None, &[false, true], 1));
    let counter = Arc::new(AtomicUsize::new(0));
    let scope = SqlInterruptScope::begun_at(counter.clone(), 0);
    assert!(!poll(Some(&scope), &[true], 0));
    SqlInterruptHandle::new(counter).interrupt();
    assert!(poll(Some(&scope), &[false], 0));
}
