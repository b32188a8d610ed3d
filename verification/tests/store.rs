use logins::db::{ImportOutcome, LoginDb};
use logins::tables::MetaEntry;
use logins::error::{Error, InvalidLogin};
use logins::login::Login;
use logins::metrics::MigrationMetrics;
use logins::row::{LocalLogin, MirrorLogin, SyncStatus};

fn realm_login(guid: &str, hostname: &str, username: &str, password: &str) -> Login {
    Login {
        guid: guid.into(),
        hostname: hostname.into(),
        http_realm: Some(hostname.into()),
        username: username.into(),
        password: password.into(),
        ..Login::default()
    }
}

fn mirror_row(login: Login, is_overridden: bool) -> MirrorLogin {
    MirrorLogin {
        login,
        server_modified: 500,
        is_overridden,
    }
}

fn local_row(login: Login, sync_status: SyncStatus) -> LocalLogin {
    LocalLogin {
        login,
        local_modified: Some(400),
        is_deleted: false,
        sync_status,
    }
}

fn timed(mut login: Login) -> Login {
    login.time_created = 10;
    login.time_password_changed = 20;
    login.time_last_used = 30;
    login.times_used = 4;
    login
}

/// A store with one synced local row in front of an overridden mirror row ("both"), one
/// mirror row alone ("remote") and one new local row ("fresh").
fn mixed_store() -> LoginDb {
    let both = timed(realm_login("both", "https://both.example.com", "b", "pw-b"));
    let remote = timed(realm_login("remote", "https://remote.example.com", "r", "pw-r"));
    let fresh = timed(realm_login("fresh", "https://fresh.example.com", "f", "pw-f"));
    LoginDb::from_tables(
        vec![
            local_row(both.clone(), SyncStatus::Synced),
            local_row(fresh, SyncStatus::New),
        ],
        vec![mirror_row(both, true), mirror_row(remote, false)],
        vec![],
    )
    .expect("the tables are in order")
}

fn local_of(db: &LoginDb, guid: &str) -> Option<LocalLogin> {
    db.local_rows().into_iter().find(|r| r.login.guid == guid)
}

fn mirror_of(db: &LoginDb, guid: &str) -> Option<MirrorLogin> {
    db.mirror_rows().into_iter().find(|r| r.login.guid == guid)
}

fn guids(logins: &[Login]) -> Vec<String> {
    logins.iter().map(|l| l.guid.clone()).collect()
}

#[test]
fn a_new_store_is_empty() {
    let db = LoginDb::open_in_memory().unwrap();
    assert!(db.get_all().unwrap().is_empty());
    assert!(db.local_rows().is_empty());
    assert!(db.mirror_rows().is_empty());
    assert!(db.meta_entries().is_empty());
}

#[test]
fn get_all_returns_exactly_the_visible_rows() {
    let mut db = mixed_store();
    assert_eq!(guids(&db.get_all().unwrap()), vec!["both", "fresh", "remote"]);
    assert!(db.delete_at("both", 1000).unwrap());
    assert_eq!(guids(&db.get_all().unwrap()), vec!["fresh", "remote"]);
    assert!(db.delete_at("remote", 1000).unwrap());
    assert_eq!(guids(&db.get_all().unwrap()), vec!["fresh"]);
    assert_eq!(db.local_rows().len(), 3);
    assert_eq!(db.mirror_rows().len(), 2);
}

#[test]
fn get_by_id_prefers_the_local_row() {
    let both_local = timed(realm_login("both", "https://local.example.com", "b", "pw"));
    let both_mirror = timed(realm_login("both", "https://mirror.example.com", "b", "pw"));
    let db = LoginDb::from_tables(
        vec![local_row(both_local, SyncStatus::Changed)],
        vec![mirror_row(both_mirror, true)],
        vec![],
    )
    .unwrap();
    let found = db.get_by_id("both").unwrap().unwrap();
    assert_eq!(found.hostname, "https://local.example.com");
    assert!(db.get_by_id("other").unwrap().is_none());
    assert!(db.record_exists("both").unwrap());
    assert!(!db.record_exists("other").unwrap());

    let mixed = mixed_store();
    assert_eq!(
        mixed.get_by_id("remote").unwrap().unwrap().hostname,
        "https://remote.example.com"
    );
}

#[test]
fn add_fills_in_what_is_missing() {
    let mut db = LoginDb::open_in_memory().unwrap();
    let stored = db
        .add_at(
            realm_login("", "https://example.com/", "u", "p"),
            1000,
            "freshguid001".into(),
        )
        .unwrap();
    assert_eq!(stored.guid, "freshguid001");
    assert_eq!(stored.hostname, "https://example.com");
    assert_eq!(stored.time_created, 1000);
    assert_eq!(stored.time_password_changed, 1000);
    assert_eq!(stored.time_last_used, 1000);
    assert_eq!(stored.times_used, 1);
    let row = local_of(&db, "freshguid001").unwrap();
    assert_eq!(row.login, stored);
    assert_eq!(row.local_modified, Some(1000));
    assert!(!row.is_deleted);
    assert_eq!(row.sync_status, SyncStatus::New);
    assert!(db.mirror_rows().is_empty());
}

#[test]
fn add_keeps_what_is_given() {
    let mut db = LoginDb::open_in_memory().unwrap();
    let stored = db
        .add_at(
            timed(realm_login("mine", "https://example.com", "u", "p")),
            1000,
            "freshguid001".into(),
        )
        .unwrap();
    assert_eq!(stored.guid, "mine");
    assert_eq!(stored.time_created, 10);
    assert_eq!(stored.time_password_changed, 20);
    assert_eq!(stored.time_last_used, 30);
    assert_eq!(stored.times_used, 4);
    assert_eq!(local_of(&db, "mine").unwrap().local_modified, Some(1000));
}

#[test]
fn add_of_a_login_and_of_its_canonical_form_agree() {
    let loose = Login {
        hostname: "http://😍.com/path".into(),
        form_submit_url: Some("http://😍.com/submit?x".into()),
        username: "u".into(),
        password: "p".into(),
        username_field: " field ".into(),
        ..Login::default()
    };
    let mut a = LoginDb::open_in_memory().unwrap();
    let mut b = LoginDb::open_in_memory().unwrap();
    let from_loose = a.add_at(loose.clone(), 77, "freshguid001".into()).unwrap();
    let from_fixed = b
        .add_at(loose.fixup().unwrap(), 77, "freshguid001".into())
        .unwrap();
    assert_eq!(from_loose, from_fixed);
    assert_eq!(a.get_all().unwrap(), b.get_all().unwrap());
    assert_eq!(
        local_of(&a, "freshguid001").unwrap().login,
        local_of(&b, "freshguid001").unwrap().login
    );
}

#[test]
fn add_rejects_a_taken_identifier() {
    let mut db = mixed_store();
    for taken in ["both", "fresh", "remote"] {
        let r = db.add_at(
            realm_login(taken, "https://new.example.com", "n", "p"),
            1000,
            "freshguid001".into(),
        );
        match r {
            Err(Error::DuplicateGuid(g)) => assert_eq!(g, taken),
            other => panic!("unexpected {:?}", other),
        }
    }
    assert_eq!(db.local_rows().len(), 2);
    let tombstoned = {
        db.delete_at("fresh", 1).unwrap();
        db.add_at(
            realm_login("fresh", "https://new.example.com", "n", "p"),
            1000,
            "freshguid001".into(),
        )
    };
    assert_eq!(tombstoned.unwrap_err().label(), "DuplicateGuid");
}

#[test]
fn add_rejects_duplicates_and_invalid_logins() {
    let mut db = mixed_store();
    let dupe = realm_login("", "https://remote.example.com", "r", "other");
    match db.add_at(dupe, 1000, "freshguid001".into()) {
        Err(Error::InvalidLogin(e)) => assert_eq!(e, InvalidLogin::DuplicateLogin),
        other => panic!("unexpected {:?}", other),
    }
    let empty = realm_login("", "https://x.example.com", "r", "");
    match db.add_at(empty, 1000, "freshguid001".into()) {
        Err(Error::InvalidLogin(e)) => assert_eq!(e, InvalidLogin::EmptyPassword),
        other => panic!("unexpected {:?}", other),
    }
    assert_eq!(db.local_rows().len(), 2);
    let other_user = realm_login("", "https://remote.example.com", "someone", "p");
    assert!(db.add_at(other_user, 1000, "freshguid001".into()).is_ok());
}

#[test]
fn touch_counts_a_use_and_leaves_the_status() {
    let mut db = mixed_store();
    db.touch_at("both", 2000).unwrap();
    let row = local_of(&db, "both").unwrap();
    assert_eq!(row.login.times_used, 5);
    assert_eq!(row.login.time_last_used, 2000);
    assert_eq!(row.login.time_created, 10);
    assert_eq!(row.login.time_password_changed, 20);
    assert_eq!(row.local_modified, Some(2000));
    assert_eq!(row.sync_status, SyncStatus::Synced);

    db.touch_at("fresh", 2001).unwrap();
    let row = local_of(&db, "fresh").unwrap();
    assert_eq!(row.login.times_used, 5);
    assert_eq!(row.sync_status, SyncStatus::New);
}

#[test]
fn touch_puts_a_local_row_in_front_of_the_mirror() {
    let mut db = mixed_store();
    assert!(local_of(&db, "remote").is_none());
    db.touch_at("remote", 2000).unwrap();
    let row = local_of(&db, "remote").unwrap();
    assert_eq!(row.login.hostname, "https://remote.example.com");
    assert_eq!(row.login.password, "pw-r");
    assert_eq!(row.login.times_used, 5);
    assert_eq!(row.login.time_last_used, 2000);
    assert_eq!(row.local_modified, Some(2000));
    assert_eq!(row.sync_status, SyncStatus::Synced);
    assert!(!row.is_deleted);
    assert!(mirror_of(&db, "remote").unwrap().is_overridden);
    assert_eq!(mirror_of(&db, "remote").unwrap().login.times_used, 4);
    assert_eq!(guids(&db.get_all().unwrap()), vec!["both", "fresh", "remote"]);
}

#[test]
fn touch_of_an_unknown_record_fails() {
    let mut db = mixed_store();
    match db.touch_at("nobody", 1) {
        Err(Error::NoSuchRecord(g)) => assert_eq!(g, "nobody"),
        other => panic!("unexpected {:?}", other),
    }
    assert_eq!(
        db.touch("nobody").unwrap_err().message(),
        "No record with guid exists (when one was required): nobody"
    );
}

#[test]
fn touch_leaves_a_tombstone_alone() {
    let mut db = mixed_store();
    db.delete_at("fresh", 50).unwrap();
    let before = local_of(&db, "fresh").unwrap();
    db.touch_at("fresh", 2000).unwrap();
    let after = local_of(&db, "fresh").unwrap();
    assert_eq!(before.login, after.login);
    assert_eq!(after.local_modified, Some(50));
    assert!(after.is_deleted);
}

#[test]
fn use_counter_stops_at_its_largest_value() {
    let mut full = timed(realm_login("full", "https://full.example.com", "f", "p"));
    full.times_used = i64::MAX;
    let mut db =
        LoginDb::from_tables(vec![local_row(full, SyncStatus::Synced)], vec![], vec![]).unwrap();
    db.touch_at("full", 1).unwrap();
    assert_eq!(local_of(&db, "full").unwrap().login.times_used, i64::MAX);
}

#[test]
fn update_moves_the_password_time_only_with_the_password() {
    let mut db = mixed_store();
    let mut same = db.get_by_id("both").unwrap().unwrap();
    same.username = "renamed".into();
    db.update_at(same, 3000).unwrap();
    let row = local_of(&db, "both").unwrap();
    assert_eq!(row.login.username, "renamed");
    assert_eq!(row.login.time_password_changed, 20);
    assert_eq!(row.login.time_last_used, 3000);
    assert_eq!(row.login.time_created, 10);
    assert_eq!(row.login.times_used, 5);
    assert_eq!(row.local_modified, Some(3000));
    assert_eq!(row.sync_status, SyncStatus::Changed);

    let mut changed = db.get_by_id("both").unwrap().unwrap();
    changed.password = "new password".into();
    changed.time_created = 999;
    changed.times_used = 999;
    db.update_at(changed, 4000).unwrap();
    let row = local_of(&db, "both").unwrap();
    assert_eq!(row.login.password, "new password");
    assert_eq!(row.login.time_password_changed, 4000);
    assert_eq!(row.login.time_created, 10);
    assert_eq!(row.login.times_used, 6);
    assert_eq!(row.sync_status, SyncStatus::Changed);
}

#[test]
fn update_leaves_a_new_row_new() {
    let mut db = mixed_store();
    let mut l = db.get_by_id("fresh").unwrap().unwrap();
    l.password = "changed".into();
    db.update_at(l, 3000).unwrap();
    let row = local_of(&db, "fresh").unwrap();
    assert_eq!(row.sync_status, SyncStatus::New);
    assert_eq!(row.login.time_password_changed, 3000);
}

#[test]
fn update_with_the_own_login_succeeds() {
    let mut db = LoginDb::open_in_memory().unwrap();
    let a = db
        .add(realm_login("", "https://example.com", "u", "p"))
        .unwrap();
    db.add(realm_login("", "https://example.org", "u", "p"))
        .unwrap();
    let current = db.get_by_id(&a.guid).unwrap().unwrap();
    assert!(db.update(current).is_ok());
    let again = db.get_by_id(&a.guid).unwrap().unwrap();
    assert_eq!(again.times_used, 2);
    assert_eq!(again.time_password_changed, a.time_password_changed);
    assert_eq!(again.hostname, "https://example.com");
}

#[test]
fn update_makes_the_login_canonical() {
    let mut db = mixed_store();
    let mut l = db.get_by_id("both").unwrap().unwrap();
    l.hostname = "https://Moved.example.com/path".into();
    l.http_realm = None;
    l.form_submit_url = Some("https://moved.example.com/login".into());
    l.username_field = " name ".into();
    db.update_at(l, 3000).unwrap();
    let row = local_of(&db, "both").unwrap();
    assert_eq!(row.login.hostname, "https://moved.example.com");
    assert_eq!(row.login.http_realm, None);
    assert_eq!(
        row.login.form_submit_url.as_deref(),
        Some("https://moved.example.com")
    );
    assert_eq!(row.login.username_field, "name");
}

#[test]
fn update_of_a_mirror_row_puts_a_changed_local_row_in_front() {
    let mut db = mixed_store();
    let mut l = db.get_by_id("remote").unwrap().unwrap();
    l.password = "new".into();
    db.update_at(l, 3000).unwrap();
    let row = local_of(&db, "remote").unwrap();
    assert_eq!(row.sync_status, SyncStatus::Changed);
    assert_eq!(row.login.password, "new");
    assert_eq!(row.login.time_password_changed, 3000);
    assert_eq!(row.login.time_created, 10);
    assert_eq!(row.login.times_used, 5);
    assert_eq!(row.local_modified, Some(3000));
    assert!(mirror_of(&db, "remote").unwrap().is_overridden);
    assert_eq!(mirror_of(&db, "remote").unwrap().login.password, "pw-r");
    assert_eq!(db.get_by_id("remote").unwrap().unwrap().password, "new");
}

#[test]
fn update_fails_for_unknown_and_deleted_records() {
    let mut db = mixed_store();
    let ghost = realm_login("nobody", "https://nobody.example.com", "n", "p");
    match db.update_at(ghost, 1) {
        Err(Error::NoSuchRecord(g)) => assert_eq!(g, "nobody"),
        other => panic!("unexpected {:?}", other),
    }
    let fresh = db.get_by_id("fresh").unwrap().unwrap();
    db.delete_at("fresh", 5).unwrap();
    let before = local_of(&db, "fresh").unwrap();
    match db.update_at(fresh, 6) {
        Err(Error::NoSuchRecord(g)) => assert_eq!(g, "fresh"),
        other => panic!("unexpected {:?}", other),
    }
    let after = local_of(&db, "fresh").unwrap();
    assert_eq!(before.login, after.login);
    assert!(after.is_deleted);
    assert_eq!(after.login.password, "");
}

#[test]
fn update_rejects_a_duplicate_of_another_record() {
    let mut db = mixed_store();
    let mut l = db.get_by_id("both").unwrap().unwrap();
    l.hostname = "https://remote.example.com".into();
    l.http_realm = Some("https://remote.example.com".into());
    l.username = "r".into();
    match db.update_at(l, 1) {
        Err(Error::InvalidLogin(e)) => assert_eq!(e, InvalidLogin::DuplicateLogin),
        other => panic!("unexpected {:?}", other),
    }
    assert_eq!(
        local_of(&db, "both").unwrap().login.hostname,
        "https://both.example.com"
    );
    let mut bad = db.get_by_id("both").unwrap().unwrap();
    bad.password = "".into();
    assert_eq!(
        db.update_at(bad, 1).unwrap_err().label(),
        "InvalidLogin::EmptyPassword"
    );
}

#[test]
fn delete_scrubs_the_local_row() {
    let mut db = mixed_store();
    assert!(db.delete_at("both", 5000).unwrap());
    let row = local_of(&db, "both").unwrap();
    assert!(row.is_deleted);
    assert_eq!(row.login.hostname, "");
    assert_eq!(row.login.username, "");
    assert_eq!(row.login.password, "");
    assert_eq!(row.login.guid, "both");
    assert_eq!(row.login.time_created, 10);
    assert_eq!(row.local_modified, Some(5000));
    assert_eq!(row.sync_status, SyncStatus::Changed);
    assert!(mirror_of(&db, "both").unwrap().is_overridden);
    assert!(!db.record_exists("both").unwrap());
    assert!(db.get_by_id("both").unwrap().is_none());
    assert!(!db.delete_at("both", 6000).unwrap());
    assert_eq!(local_of(&db, "both").unwrap().local_modified, Some(6000));
}

#[test]
fn delete_of_a_mirror_row_leaves_a_tombstone_in_front() {
    let mut db = mixed_store();
    assert!(db.delete_at("remote", 5000).unwrap());
    let row = local_of(&db, "remote").unwrap();
    assert!(row.is_deleted);
    assert_eq!(row.login.guid, "remote");
    assert_eq!(row.login.hostname, "");
    assert_eq!(row.login.username, "");
    assert_eq!(row.login.password, "");
    assert_eq!(row.login.http_realm, None);
    assert_eq!(row.login.form_submit_url, None);
    assert_eq!(row.login.time_created, 10);
    assert_eq!(row.login.time_password_changed, 5000);
    assert_eq!(row.login.time_last_used, 0);
    assert_eq!(row.login.times_used, 0);
    assert_eq!(row.local_modified, Some(5000));
    assert_eq!(row.sync_status, SyncStatus::Changed);
    let mirror = mirror_of(&db, "remote").unwrap();
    assert!(mirror.is_overridden);
    assert_eq!(mirror.login.password, "pw-r");
    assert!(!db.delete_at("remote", 6000).unwrap());
}

#[test]
fn delete_of_an_unknown_record_changes_nothing() {
    let mut db = mixed_store();
    assert!(!db.delete_at("nobody", 5000).unwrap());
    assert_eq!(db.local_rows().len(), 2);
    assert_eq!(db.mirror_rows().len(), 2);
    assert!(!mirror_of(&db, "remote").unwrap().is_overridden);
}

#[test]
fn wipe_leaves_a_tombstone_for_every_record() {
    let mut db = mixed_store();
    db.delete_at("fresh", 50).unwrap();
    db.wipe_at(7000);
    assert!(db.get_all().unwrap().is_empty());
    let rows = db.local_rows();
    assert_eq!(
        rows.iter().map(|r| r.login.guid.as_str()).collect::<Vec<_>>(),
        vec!["both", "fresh", "remote"]
    );
    for row in &rows {
        assert!(row.is_deleted);
        assert_eq!(row.login.hostname, "");
        assert_eq!(row.login.username, "");
        assert_eq!(row.login.password, "");
        assert_eq!(row.sync_status, SyncStatus::Changed);
    }
    assert_eq!(rows[0].local_modified, Some(7000));
    assert_eq!(rows[1].local_modified, Some(50));
    assert_eq!(rows[2].local_modified, Some(7000));
    assert_eq!(rows[2].login.time_created, 10);
    assert_eq!(rows[2].login.time_password_changed, 7000);
    assert!(db.mirror_rows().iter().all(|m| m.is_overridden));
    assert_eq!(db.mirror_rows().len(), 2);
}

#[test]
fn an_interrupted_wipe_changes_nothing() {
    let mut db = mixed_store();
    let handle = db.new_interrupt_handle();
    let scope = db.begin_interrupt_scope();
    assert!(!scope.was_interrupted());
    assert!(scope.err_if_interrupted().is_ok());
    handle.clone().interrupt();
    assert!(scope.was_interrupted());
    assert_eq!(scope.err_if_interrupted().unwrap_err().label(), "Interrupted");
    match db.wipe(&scope) {
        Err(Error::Interrupted) => {}
        other => panic!("unexpected {:?}", other),
    }
    assert_eq!(guids(&db.get_all().unwrap()), vec!["both", "fresh", "remote"]);
    assert_eq!(db.local_rows().len(), 2);
    let later = db.begin_interrupt_scope();
    assert!(!later.was_interrupted());
    assert!(db.wipe(&later).is_ok());
    assert!(db.get_all().unwrap().is_empty());
}

#[test]
fn wipe_local_forgets_everything() {
    let mut db = mixed_store();
    db.put_meta("last_sync", "12345").unwrap();
    db.wipe_local().unwrap();
    assert!(db.local_rows().is_empty());
    assert!(db.mirror_rows().is_empty());
    assert!(db.meta_entries().is_empty());
    assert_eq!(db.get_meta("last_sync").unwrap(), None);
}

#[test]
fn metadata_is_kept_by_key() {
    let mut db = LoginDb::open_in_memory().unwrap();
    assert_eq!(db.get_meta("a").unwrap(), None);
    db.put_meta("a", "1").unwrap();
    db.put_meta("b", "2").unwrap();
    assert_eq!(db.get_meta("a").unwrap().as_deref(), Some("1"));
    assert_eq!(db.get_meta("b").unwrap().as_deref(), Some("2"));
    db.put_meta("a", "3").unwrap();
    assert_eq!(db.get_meta("a").unwrap().as_deref(), Some("3"));
    assert_eq!(db.meta_entries().len(), 2);
    db.delete_meta("a").unwrap();
    assert_eq!(db.get_meta("a").unwrap(), None);
    assert_eq!(db.get_meta("b").unwrap().as_deref(), Some("2"));
    db.delete_meta("missing").unwrap();
    assert_eq!(db.meta_entries().len(), 1);
}

#[test]
fn tables_that_are_out_of_order_are_refused() {
    let a = realm_login("a", "https://a.example.com", "a", "p");
    let b = realm_login("b", "https://b.example.com", "b", "p");
    let ok = |local: Vec<LocalLogin>, mirror: Vec<MirrorLogin>, meta: Vec<MetaEntry>| {
        LoginDb::from_tables(local, mirror, meta).is_some()
    };
    assert!(ok(vec![], vec![], vec![]));
    assert!(ok(
        vec![local_row(a.clone(), SyncStatus::Changed)],
        vec![mirror_row(a.clone(), true), mirror_row(b.clone(), false)],
        vec![],
    ));
    assert!(!ok(
        vec![
            local_row(a.clone(), SyncStatus::Changed),
            local_row(a.clone(), SyncStatus::Changed)
        ],
        vec![],
        vec![],
    ));
    assert!(!ok(
        vec![],
        vec![mirror_row(a.clone(), false), mirror_row(a.clone(), false)],
        vec![],
    ));
    assert!(!ok(vec![], vec![mirror_row(a.clone(), true)], vec![]));
    assert!(!ok(
        vec![local_row(a.clone(), SyncStatus::Changed)],
        vec![mirror_row(a.clone(), false)],
        vec![],
    ));
    assert!(!ok(
        vec![local_row(a.clone(), SyncStatus::New)],
        vec![mirror_row(a.clone(), true)],
        vec![],
    ));
    let mut tombstone = local_row(a.clone(), SyncStatus::Changed);
    tombstone.is_deleted = true;
    assert!(!ok(vec![tombstone], vec![], vec![]));
    let mut scrubbed = local_row(
        Login {
            guid: "a".into(),
            ..Login::default()
        },
        SyncStatus::Changed,
    );
    scrubbed.is_deleted = true;
    assert!(ok(vec![scrubbed], vec![], vec![]));
    let nameless = realm_login("", "https://a.example.com", "a", "p");
    assert!(!ok(vec![local_row(nameless.clone(), SyncStatus::New)], vec![], vec![]));
    assert!(!ok(vec![], vec![mirror_row(nameless, false)], vec![]));
    let entry = |k: &str| MetaEntry {
        key: k.into(),
        value: "v".into(),
    };
    assert!(ok(vec![], vec![], vec![entry("k"), entry("l")]));
    assert!(!ok(vec![], vec![], vec![entry("k"), entry("k")]));
}

#[test]
fn import_keeps_accepted_identifiers_and_replaces_others() {
    let mut db = LoginDb::open_in_memory().unwrap();
    let kept = db.import_one(
        &timed(realm_login("good-guid", "https://a.example.com/", "a", "p")),
        900,
        "freshguid001".into(),
    );
    assert!(matches!(kept, ImportOutcome::Imported));
    let replaced = db.import_one(
        &realm_login("bad,guid", "https://b.example.com", "b", "p"),
        900,
        "freshguid002".into(),
    );
    assert!(matches!(replaced, ImportOutcome::Imported));
    let nameless = db.import_one(
        &realm_login("", "https://c.example.com", "c", "p"),
        900,
        "freshguid003".into(),
    );
    assert!(matches!(nameless, ImportOutcome::Imported));
    let rows = db.local_rows();
    assert_eq!(
        rows.iter().map(|r| r.login.guid.as_str()).collect::<Vec<_>>(),
        vec!["good-guid", "freshguid002", "freshguid003"]
    );
    assert_eq!(rows[0].login.hostname, "https://a.example.com");
    assert_eq!(rows[0].login.time_created, 10);
    assert_eq!(rows[0].login.times_used, 4);
    assert_eq!(rows[0].local_modified, Some(900));
    assert_eq!(rows[0].sync_status, SyncStatus::New);
    assert_eq!(rows[1].login.time_created, 0);
    assert_eq!(rows[1].login.times_used, 0);
}

#[test]
fn import_reports_the_phase_of_a_failure() {
    let mut db = LoginDb::open_in_memory().unwrap();
    let first = realm_login("guid-1", "https://a.example.com", "a", "p");
    assert!(matches!(
        db.import_one(&first, 1, "freshguid001".into()),
        ImportOutcome::Imported
    ));
    let invalid = realm_login("guid-2", "", "a", "p");
    match db.import_one(&invalid, 1, "freshguid001".into()) {
        ImportOutcome::FailedFixup(e) => assert_eq!(e.label(), "InvalidLogin::EmptyOrigin"),
        other => panic!("unexpected {:?}", other),
    }
    let dupe = realm_login("guid-3", "https://a.example.com", "a", "other");
    match db.import_one(&dupe, 1, "freshguid001".into()) {
        ImportOutcome::FailedFixup(e) => assert_eq!(e.label(), "InvalidLogin::DuplicateLogin"),
        other => panic!("unexpected {:?}", other),
    }
    let taken = realm_login("guid-1", "https://b.example.com", "b", "p");
    match db.import_one(&taken, 1, "freshguid001".into()) {
        ImportOutcome::FailedInsert(Error::DuplicateGuid(g)) => assert_eq!(g, "guid-1"),
        other => panic!("unexpected {:?}", other),
    }
    assert_eq!(db.local_rows().len(), 1);
}

#[test]
fn import_counts_every_login_once() {
    let mut db = LoginDb::open_in_memory().unwrap();
    let logins = vec![
        realm_login("guid-1", "https://a.example.com", "a", "p"),
        realm_login("guid-2", "", "a", "p"),
        realm_login("guid-1", "https://b.example.com", "b", "p"),
        realm_login("guid-3", "https://a.example.com", "a", "q"),
        realm_login("", "https://c.example.com/x", "c", "p"),
        realm_login("guid-4", "https://d.example.com", "d", ""),
    ];
    let m = db.import_multiple(&logins).unwrap();
    assert_eq!(m.num_processed, 6);
    assert_eq!(m.num_succeeded, 2);
    assert_eq!(m.num_failed, 4);
    assert_eq!(m.num_succeeded + m.num_failed, m.num_processed);
    assert_eq!(m.fixup_phase.num_processed, 6);
    assert_eq!(m.fixup_phase.num_succeeded, 3);
    assert_eq!(m.fixup_phase.num_failed, 3);
    assert_eq!(
        m.fixup_phase.errors,
        vec![
            "InvalidLogin::EmptyOrigin",
            "InvalidLogin::DuplicateLogin",
            "InvalidLogin::EmptyPassword"
        ]
    );
    assert_eq!(m.insert_phase.num_processed, 3);
    assert_eq!(m.insert_phase.num_succeeded, 2);
    assert_eq!(m.insert_phase.num_failed, 1);
    assert_eq!(m.insert_phase.errors, vec!["DuplicateGuid"]);
    assert_eq!(
        m.errors,
        vec![
            "InvalidLogin::EmptyOrigin",
            "InvalidLogin::DuplicateLogin",
            "InvalidLogin::EmptyPassword",
            "DuplicateGuid"
        ]
    );
    assert_eq!(
        m.total_duration,
        m.fixup_phase.total_duration + m.insert_phase.total_duration
    );
    let stored = db.get_all().unwrap();
    assert_eq!(stored.len(), 2);
    assert_eq!(stored[0].guid, "guid-1");
    assert_eq!(stored[1].hostname, "https://c.example.com");
    assert_eq!(stored[1].guid.chars().count(), 12);
}

#[test]
fn import_into_a_store_with_rows_is_refused() {
    let mut db = mixed_store();
    let logins = vec![realm_login("guid-1", "https://a.example.com", "a", "p")];
    match db.import_multiple(&logins) {
        Err(Error::NonEmptyTable) => {}
        other => panic!("unexpected {:?}", other),
    }
    assert_eq!(guids(&db.get_all().unwrap()), vec!["both", "fresh", "remote"]);
    assert_eq!(db.local_rows().len(), 2);

    let mut only_mirror = LoginDb::from_tables(
        vec![],
        vec![mirror_row(
            realm_login("m", "https://m.example.com", "m", "p"),
            false,
        )],
        vec![],
    )
    .unwrap();
    assert_eq!(
        only_mirror.import_multiple(&logins).unwrap_err().label(),
        "NonEmptyTable"
    );
    assert!(only_mirror.local_rows().is_empty());

    let mut only_tombstone = LoginDb::open_in_memory().unwrap();
    let added = only_tombstone
        .add(realm_login("", "https://t.example.com", "t", "p"))
        .unwrap();
    only_tombstone.delete(&added.guid).unwrap();
    assert!(only_tombstone.import_multiple(&logins).is_err());
}

#[test]
fn metrics_are_assembled_from_the_error_labels() {
    let m = MigrationMetrics::assemble(
        5,
        vec!["a".into()],
        vec!["b".into(), "c".into()],
        10,
        25,
    );
    assert_eq!(m.num_processed, 5);
    assert_eq!(m.num_succeeded, 2);
    assert_eq!(m.num_failed, 3);
    assert_eq!(m.total_duration, 25);
    assert_eq!(m.errors, vec!["a", "b", "c"]);
    assert_eq!(m.fixup_phase.num_processed, 5);
    assert_eq!(m.fixup_phase.num_succeeded, 4);
    assert_eq!(m.fixup_phase.num_failed, 1);
    assert_eq!(m.fixup_phase.total_duration, 10);
    assert_eq!(m.fixup_phase.errors, vec!["a"]);
    assert_eq!(m.insert_phase.num_processed, 4);
    assert_eq!(m.insert_phase.num_succeeded, 2);
    assert_eq!(m.insert_phase.num_failed, 2);
    assert_eq!(m.insert_phase.total_duration, 15);
    assert_eq!(m.insert_phase.errors, vec!["b", "c"]);

    let late = MigrationMetrics::assemble(0, vec![], vec![], 10, 5);
    assert_eq!(late.fixup_phase.total_duration, 10);
    assert_eq!(late.insert_phase.total_duration, 0);
    assert_eq!(late.total_duration, 10);
    assert_eq!(late.num_processed, 0);
    assert_eq!(MigrationMetrics::default().clone(), MigrationMetrics::default());
}

#[test]
fn potential_dupes_ignore_the_username() {
    let mut db = mixed_store();
    db.add_at(
        realm_login("", "https://remote.example.com", "someone", "p"),
        1,
        "freshguid001".into(),
    )
    .unwrap();
    let probe = realm_login("", "https://remote.example.com", "whoever", "p");
    let found = db.potential_dupes_ignoring_username(&probe).unwrap();
    assert_eq!(guids(&found), vec!["freshguid001", "remote"]);
    let other_target = Login {
        http_realm: Some("other realm".into()),
        ..probe.clone()
    };
    assert!(db
        .potential_dupes_ignoring_username(&other_target)
        .unwrap()
        .is_empty());
    assert!(!db.dupe_exists(&probe).unwrap());
    let same_user = realm_login("", "https://remote.example.com", "r", "p");
    assert!(db.dupe_exists(&same_user).unwrap());
    assert!(db.check_for_dupes(&same_user).is_err());
    assert!(db.check_for_dupes(&probe).is_ok());
    let own = realm_login("remote", "https://remote.example.com", "r", "p");
    assert!(!db.dupe_exists(&own).unwrap());
}

#[test]
fn deleted_and_overridden_rows_duplicate_nothing() {
    let mut db = mixed_store();
    let probe = realm_login("", "https://both.example.com", "b", "p");
    assert!(db.dupe_exists(&probe).unwrap());
    db.delete_at("both", 1).unwrap();
    assert!(!db.dupe_exists(&probe).unwrap());
    assert!(db.add_at(probe, 2, "freshguid001".into()).is_ok());
}

#[test]
fn fixup_and_check_for_dupes_hands_back_the_canonical_login() {
    let db = mixed_store();
    let loose = realm_login("", "https://new.example.com/path", "n", "p");
    let fixed = db.fixup_and_check_for_dupes(loose).unwrap();
    assert_eq!(fixed.hostname, "https://new.example.com");
    let dupe = Login {
        hostname: "https://remote.example.com/path".into(),
        ..realm_login("", "https://remote.example.com", "r", "p")
    };
    assert_eq!(
        db.fixup_and_check_for_dupes(dupe).unwrap_err().label(),
        "InvalidLogin::DuplicateLogin"
    );
}

#[test]
fn find_dupe_looks_for_the_same_login_in_the_local_rows() {
    let stored = Login {
        guid: "stored".into(),
        hostname: "https://example.com".into(),
        form_submit_url: Some("https://login.example.com:8443".into()),
        username: "u".into(),
        password: "p".into(),
        ..Login::default()
    };
    let anywhere = Login {
        guid: "anywhere".into(),
        hostname: "https://example.org".into(),
        form_submit_url: Some("".into()),
        username: "u".into(),
        password: "p".into(),
        ..Login::default()
    };
    let remote = realm_login("remote", "https://remote.example.com", "r", "p");
    let db = LoginDb::from_tables(
        vec![
            local_row(stored.clone(), SyncStatus::New),
            local_row(anywhere, SyncStatus::New),
        ],
        vec![mirror_row(remote.clone(), false)],
        vec![],
    )
    .unwrap();

    let mut probe = stored.clone();
    probe.guid = "incoming".into();
    probe.form_submit_url = Some("https://login.example.com:8443/some/path".into());
    assert_eq!(db.find_dupe(&probe).unwrap().unwrap().guid, "stored");

    probe.form_submit_url = Some("https://login.example.com:9000/".into());
    assert!(db.find_dupe(&probe).unwrap().is_none());

    probe.form_submit_url = None;
    assert!(db.find_dupe(&probe).unwrap().is_none());

    let mut wide = stored.clone();
    wide.hostname = "https://example.org".into();
    wide.form_submit_url = Some("https://whatever.example.org".into());
    assert_eq!(db.find_dupe(&wide).unwrap().unwrap().guid, "anywhere");

    let mut other_user = stored.clone();
    other_user.username = "v".into();
    assert!(db.find_dupe(&other_user).unwrap().is_none());

    assert!(db.find_dupe(&remote).unwrap().is_none());
}

#[test]
fn pending_rows_are_those_the_server_has_not_confirmed() {
    let mut db = mixed_store();
    assert_eq!(
        db.pending()
            .iter()
            .map(|r| r.login.guid.as_str())
            .collect::<Vec<_>>(),
        vec!["fresh"]
    );
    db.delete_at("both", 1).unwrap();
    db.touch_at("remote", 2).unwrap();
    assert_eq!(
        db.pending()
            .iter()
            .map(|r| (r.login.guid.as_str(), r.sync_status, r.is_deleted))
            .collect::<Vec<_>>(),
        vec![
            ("both", SyncStatus::Changed, true),
            ("fresh", SyncStatus::New, false)
        ]
    );
}

#[test]
fn a_confirmed_row_moves_into_the_mirror() {
    let mut db = mixed_store();
    let before = db.get_by_id("fresh").unwrap().unwrap();
    assert!(db.mark_uploaded("fresh", 9000));
    assert!(local_of(&db, "fresh").is_none());
    let mirror = mirror_of(&db, "fresh").unwrap();
    assert_eq!(mirror.login, before);
    assert_eq!(mirror.server_modified, 9000);
    assert!(!mirror.is_overridden);
    assert_eq!(db.get_by_id("fresh").unwrap().unwrap(), before);
    assert!(db.pending().is_empty());
    assert!(!db.mark_uploaded("fresh", 9001));
    assert!(!db.mark_uploaded("nobody", 9001));
    assert_eq!(mirror_of(&db, "fresh").unwrap().server_modified, 9000);

    let mut changed = db.get_by_id("both").unwrap().unwrap();
    changed.password = "newer".into();
    db.update_at(changed, 9500).unwrap();
    assert!(db.mark_uploaded("both", 9600));
    let mirror = mirror_of(&db, "both").unwrap();
    assert_eq!(mirror.login.password, "newer");
    assert_eq!(mirror.server_modified, 9600);
    assert!(!mirror.is_overridden);
    assert!(local_of(&db, "both").is_none());
    assert_eq!(db.mirror_rows().len(), 3);
    assert_eq!(guids(&db.get_all().unwrap()), vec!["both", "remote", "fresh"]);
}

#[test]
fn a_confirmed_tombstone_leaves_both_tables() {
    let mut db = mixed_store();
    db.delete_at("both", 1).unwrap();
    db.delete_at("fresh", 1).unwrap();
    assert!(db.mark_uploaded("both", 9000));
    assert!(db.mark_uploaded("fresh", 9000));
    assert!(local_of(&db, "both").is_none());
    assert!(mirror_of(&db, "both").is_none());
    assert!(local_of(&db, "fresh").is_none());
    assert_eq!(db.local_rows().len(), 0);
    assert_eq!(db.mirror_rows().len(), 1);
    assert_eq!(guids(&db.get_all().unwrap()), vec!["remote"]);
    assert!(db
        .add_at(
            realm_login("both", "https://again.example.com", "a", "p"),
            5,
            "freshguid001".into()
        )
        .is_ok());
}

#[test]
fn an_incoming_login_is_written_to_the_mirror() {
    let mut db = mixed_store();
    let brand_new = timed(realm_login("incoming", "https://in.example.com", "i", "p"));
    assert!(db.apply_incoming(brand_new.clone(), 7000));
    let row = mirror_of(&db, "incoming").unwrap();
    assert_eq!(row.login, brand_new);
    assert_eq!(row.server_modified, 7000);
    assert!(!row.is_overridden);
    assert_eq!(db.get_by_id("incoming").unwrap().unwrap(), brand_new);

    let mut newer = db.get_by_id("remote").unwrap().unwrap();
    newer.password = "from the server".into();
    assert!(db.apply_incoming(newer, 7001));
    assert_eq!(
        db.get_by_id("remote").unwrap().unwrap().password,
        "from the server"
    );
    assert_eq!(mirror_of(&db, "remote").unwrap().server_modified, 7001);
    assert_eq!(db.mirror_rows().len(), 3);

    let mut shadowed = db.get_by_id("both").unwrap().unwrap();
    shadowed.password = "hidden".into();
    assert!(db.apply_incoming(shadowed, 7002));
    assert!(mirror_of(&db, "both").unwrap().is_overridden);
    assert_eq!(mirror_of(&db, "both").unwrap().login.password, "hidden");
    assert_eq!(db.get_by_id("both").unwrap().unwrap().password, "pw-b");
    assert_eq!(local_of(&db, "both").unwrap().sync_status, SyncStatus::Synced);

    let clash = timed(realm_login("fresh", "https://server.example.com", "s", "p"));
    assert!(db.apply_incoming(clash, 7003));
    assert!(mirror_of(&db, "fresh").unwrap().is_overridden);
    assert_eq!(local_of(&db, "fresh").unwrap().sync_status, SyncStatus::Changed);
    assert_eq!(
        db.get_by_id("fresh").unwrap().unwrap().hostname,
        "https://fresh.example.com"
    );

    let nameless = realm_login("", "https://x.example.com", "x", "p");
    assert!(!db.apply_incoming(nameless, 7004));
    assert_eq!(db.mirror_rows().len(), 4);
}

#[test]
fn a_record_goes_through_its_life() {
    let mut db = LoginDb::open_in_memory().unwrap();
    let stored = db
        .add(realm_login("", "https://example.com", "u", "p"))
        .unwrap();
    let g = stored.guid.clone();
    assert_eq!(local_of(&db, &g).unwrap().sync_status, SyncStatus::New);
    db.update(stored.clone()).unwrap();
    assert_eq!(local_of(&db, &g).unwrap().sync_status, SyncStatus::New);
    assert!(db.mark_uploaded(&g, 1));
    assert!(local_of(&db, &g).is_none());
    db.touch(&g).unwrap();
    assert_eq!(local_of(&db, &g).unwrap().sync_status, SyncStatus::Synced);
    assert!(mirror_of(&db, &g).unwrap().is_overridden);
    db.update(db.get_by_id(&g).unwrap().unwrap()).unwrap();
    assert_eq!(local_of(&db, &g).unwrap().sync_status, SyncStatus::Changed);
    assert!(db.delete(&g).unwrap());
    let tombstone = local_of(&db, &g).unwrap();
    assert!(tombstone.is_deleted);
    assert_eq!(tombstone.sync_status, SyncStatus::Changed);
    assert!(db.mark_uploaded(&g, 2));
    assert!(db.local_rows().is_empty());
    assert!(db.mirror_rows().is_empty());
}

#[test]
fn a_local_row_is_put_in_front_of_a_mirror_row() {
    let mut db = mixed_store();
    db.ensure_local_overlay_exists("remote").unwrap();
    let row = local_of(&db, "remote").unwrap();
    assert_eq!(row.login, mirror_of(&db, "remote").unwrap().login);
    assert_eq!(row.local_modified, None);
    assert!(!row.is_deleted);
    assert_eq!(row.sync_status, SyncStatus::Synced);
    assert!(!mirror_of(&db, "remote").unwrap().is_overridden);
    assert_eq!(db.mirror_rows().len(), 2);
    assert_eq!(db.local_rows().len(), 3);

    db.ensure_local_overlay_exists("remote").unwrap();
    assert_eq!(db.local_rows().len(), 3);
    assert!(!mirror_of(&db, "remote").unwrap().is_overridden);

    db.mark_mirror_overridden("remote").unwrap();
    assert!(mirror_of(&db, "remote").unwrap().is_overridden);
    assert_eq!(mirror_of(&db, "remote").unwrap().login.password, "pw-r");
    assert_eq!(local_of(&db, "remote").unwrap().sync_status, SyncStatus::Synced);
    assert_eq!(guids(&db.get_all().unwrap()), vec!["both", "fresh", "remote"]);
    assert!(db.pending().iter().all(|r| r.login.guid != "remote"));
    db.mark_mirror_overridden("remote").unwrap();
    assert!(mirror_of(&db, "remote").unwrap().is_overridden);

    db.ensure_local_overlay_exists("both").unwrap();
    db.ensure_local_overlay_exists("fresh").unwrap();
    db.mark_mirror_overridden("both").unwrap();
    db.mark_mirror_overridden("fresh").unwrap();
    db.mark_mirror_overridden("nobody").unwrap();
    assert_eq!(db.local_rows().len(), 3);
    assert_eq!(db.mirror_rows().len(), 2);
    assert_eq!(
        db.ensure_local_overlay_exists("nobody").unwrap_err().label(),
        "NoSuchRecord"
    );
    assert_eq!(db.local_rows().len(), 3);

    let mut gone = mixed_store();
    gone.delete_at("fresh", 1).unwrap();
    let tombstone = local_of(&gone, "fresh").unwrap();
    gone.ensure_local_overlay_exists("fresh").unwrap();
    assert_eq!(local_of(&gone, "fresh").unwrap().login, tombstone.login);
    assert!(local_of(&gone, "fresh").unwrap().is_deleted);
}

#[test]
fn an_interrupted_import_stores_nothing() {
    let logins = vec![
        realm_login("guid-1", "https://a.example.com", "a", "p"),
        realm_login("guid-2", "https://b.example.com", "b", "p"),
    ];
    let mut db = LoginDb::open_in_memory().unwrap();
    db.put_meta("k", "v").unwrap();
    let handle = db.new_interrupt_handle();
    let scope = db.begin_interrupt_scope();
    handle.interrupt();
    match db.import_multiple_in_scope(&logins, &scope) {
        Err(Error::Interrupted) => {}
        other => panic!("unexpected {:?}", other),
    }
    assert!(db.local_rows().is_empty());
    assert_eq!(db.get_meta("k").unwrap().as_deref(), Some("v"));

    let calm = db.begin_interrupt_scope();
    let m = db.import_multiple_in_scope(&logins, &calm).unwrap();
    assert_eq!(m.num_processed, 2);
    assert_eq!(m.num_succeeded, 2);
    assert_eq!(db.local_rows().len(), 2);
    assert_eq!(
        db.import_multiple_in_scope(&logins, &calm)
            .unwrap_err()
            .label(),
        "NonEmptyTable"
    );
}

#[test]
fn a_wipe_fails_exactly_when_a_poll_says_so() {
    for k in 0..4 {
        let mut polls = [false; 4];
        polls[k] = true;
        let mut db = mixed_store();
        match db.wipe_polled(7000, &polls) {
            Err(Error::Interrupted) => {}
            other => panic!("unexpected {:?}", other),
        }
        assert_eq!(guids(&db.get_all().unwrap()), vec!["both", "fresh", "remote"]);
        assert_eq!(db.local_rows().len(), 2);
        assert!(!mirror_of(&db, "remote").unwrap().is_overridden);
    }
    let mut db = mixed_store();
    assert!(db.wipe_polled(7000, &[false, false, false, false, true]).is_ok());
    assert!(db.get_all().unwrap().is_empty());
    assert_eq!(db.local_rows().len(), 3);
    let mut db = mixed_store();
    assert!(db.wipe_polled(7000, &[]).is_ok());
    assert!(db.get_all().unwrap().is_empty());
    let mut db = mixed_store();
    assert!(db.wipe_polled(7000, &[false, true]).is_err());
}

#[test]
fn an_import_fails_exactly_when_a_poll_says_so() {
    let logins = vec![
        realm_login("guid-1", "https://a.example.com", "a", "p"),
        realm_login("guid-2", "https://b.example.com", "b", "p"),
    ];
    for k in 0..3 {
        let mut polls = [false; 3];
        polls[k] = true;
        let mut db = LoginDb::open_in_memory().unwrap();
        match db.import_multiple_polled(&logins, &polls) {
            Err(Error::Interrupted) => {}
            other => panic!("unexpected {:?}", other),
        }
        assert!(db.local_rows().is_empty());
    }
    let mut db = LoginDb::open_in_memory().unwrap();
    let m = db
        .import_multiple_polled(&logins, &[false, false, false, true])
        .unwrap();
    assert_eq!(m.num_succeeded, 2);
    assert_eq!(db.local_rows().len(), 2);
    assert_eq!(
        db.import_multiple_polled(&logins, &[true]).unwrap_err().label(),
        "NonEmptyTable"
    );
    let mut db = LoginDb::open_in_memory().unwrap();
    assert_eq!(db.import_multiple_polled(&logins, &[]).unwrap().num_processed, 2);
}

#[test]
fn a_login_with_an_identifier_needs_no_fresh_one() {
    let mut db = LoginDb::open_in_memory().unwrap();
    let stored = db
        .add_at(
            realm_login("mine", "https://example.com", "u", "p"),
            5,
            String::new(),
        )
        .unwrap();
    assert_eq!(stored.guid, "mine");
}

#[test]
fn handles_stay_good_across_changes() {
    let mut db = mixed_store();
    let handle = db.new_interrupt_handle();
    db.wipe_local().unwrap();
    db.add(realm_login("", "https://example.com", "u", "p")).unwrap();
    db.put_meta("k", "v").unwrap();
    let scope = db.begin_interrupt_scope();
    handle.interrupt();
    assert!(scope.was_interrupted());
    assert!(db.wipe(&scope).is_err());
    assert_eq!(db.get_all().unwrap().len(), 1);
}
