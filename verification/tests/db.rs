use logins::db::LoginDb;
use logins::tables::MetaEntry;
use logins::guid::random_guid;
use logins::login::Login;
use logins::metrics::{MigrationMetrics, MigrationPhaseMetrics};
use logins::row::{LocalLogin, MirrorLogin, SyncStatus};

#[test]
fn test_check_valid_with_no_dupes() {
    let mut db = LoginDb::open_in_memory().unwrap();
    db.add(Login {
        guid: "dummy_000001".into(),
        form_submit_url: Some("https://www.example.com".into()),
        hostname: "https://www.example.com".into(),
        http_realm: None,
        username: "test".into(),
        password: "test".into(),
        ..Login::default()
    })
    .unwrap();

    let unique_login_guid = String::new();
    let unique_login = Login {
        guid: unique_login_guid.clone(),
        form_submit_url: None,
        hostname: "https://www.example.com".into(),
        http_realm: Some("https://www.example.com".into()),
        username: "test".into(),
        password: "test".into(),
        ..Login::default()
    };

    let duplicate_login = Login {
        guid: String::new(),
        form_submit_url: Some("https://www.example.com".into()),
        hostname: "https://www.example.com".into(),
        http_realm: None,
        username: "test".into(),
        password: "test2".into(),
        ..Login::default()
    };

    let updated_login = Login {
        guid: unique_login_guid,
        form_submit_url: None,
        hostname: "https://www.example.com".into(),
        http_realm: Some("https://www.example.com".into()),
        username: "test".into(),
        password: "test4".into(),
        ..Login::default()
    };

    struct TestCase {
        login: Login,
        should_err: bool,
        expected_err: &'static str,
    }

    let test_cases = [
        TestCase {
            login: unique_login,
            should_err: false,
            expected_err: "",
        },
        TestCase {
            login: duplicate_login,
            should_err: true,
            expected_err: "Invalid login: Login already exists",
        },
        TestCase {
            login: updated_login,
            should_err: false,
            expected_err: "",
        },
    ];

    for tc in &test_cases {
        let login_check = db.check_valid_with_no_dupes(&tc.login);
        if tc.should_err {
            assert!(&login_check.is_err());
            assert_eq!(&login_check.unwrap_err().message(), tc.expected_err)
        } else {
            assert!(&login_check.is_ok())
        }
    }
}

#[test]
fn test_unicode_submit() {
    let mut db = LoginDb::open_in_memory().unwrap();
    db.add(Login {
        guid: "dummy_000001".into(),
        form_submit_url: Some("http://😍.com".into()),
        hostname: "http://😍.com".into(),
        http_realm: None,
        username: "😍".into(),
        username_field: "😍".into(),
        password: "😍".into(),
        password_field: "😍".into(),
        ..Login::default()
    })
    .unwrap();
    let fetched = db
        .get_by_id("dummy_000001")
        .expect("should work")
        .expect("should get a record");
    assert_eq!(fetched.hostname, "http://xn--r28h.com");
    assert_eq!(fetched.form_submit_url.unwrap(), "http://xn--r28h.com");
    assert_eq!(fetched.username, "😍");
    assert_eq!(fetched.username_field, "😍");
    assert_eq!(fetched.password, "😍");
    assert_eq!(fetched.password_field, "😍");
}

#[test]
fn test_unicode_realm() {
    let mut db = LoginDb::open_in_memory().unwrap();
    db.add(Login {
        guid: "dummy_000001".into(),
        form_submit_url: None,
        hostname: "http://😍.com".into(),
        http_realm: Some("😍😍".into()),
        username: "😍".into(),
        password: "😍".into(),
        ..Login::default()
    })
    .unwrap();
    let fetched = db
        .get_by_id("dummy_000001")
        .expect("should work")
        .expect("should get a record");
    assert_eq!(fetched.hostname, "http://xn--r28h.com");
    assert_eq!(fetched.http_realm.unwrap(), "😍😍");
}

fn check_matches(db: &LoginDb, query: &str, expected: &[&str]) {
    let mut results = db
        .get_by_base_domain(query)
        .unwrap()
        .into_iter()
        .map(|l| l.hostname)
        .collect::<Vec<String>>();
    results.sort_unstable();
    let mut sorted = expected.to_owned();
    sorted.sort_unstable();
    assert_eq!(sorted, results);
}

fn check_good_bad(
    good: Vec<&str>,
    bad: Vec<&str>,
    good_queries: Vec<&str>,
    zero_queries: Vec<&str>,
) {
    let mut db = LoginDb::open_in_memory().unwrap();
    for h in good.iter().chain(bad.iter()) {
        db.add(Login {
            hostname: (*h).into(),
            http_realm: Some((*h).into()),
            password: "test".into(),
            ..Login::default()
        })
        .unwrap();
    }
    for query in good_queries {
        check_matches(&db, query, &good);
    }
    for query in zero_queries {
        check_matches(&db, query, &[]);
    }
}

#[test]
fn test_get_by_base_domain_invalid() {
    check_good_bad(
        vec!["https://example.com"],
        vec![],
        vec![],
        vec!["invalid query"],
    );
}

#[test]
fn test_get_by_base_domain() {
    check_good_bad(
        vec![
            "https://example.com",
            "https://www.example.com",
            "http://www.example.com",
            "http://www.example.com:8080",
            "http://sub.example.com:8080",
            "https://sub.example.com:8080",
            "https://sub.sub.example.com",
            "ftp://sub.example.com",
        ],
        vec![
            "https://badexample.com",
            "https://example.co",
            "https://example.com.au",
        ],
        vec!["example.com"],
        vec!["foo.com"],
    );
    check_good_bad(
        vec!["http://xn--r28h.com"],
        vec!["http://💖.com"],
        vec!["😍.com", "xn--r28h.com"],
        vec![],
    );
}

#[test]
fn test_get_by_base_domain_ipv4() {
    check_good_bad(
        vec!["http://127.0.0.1", "https://127.0.0.1:8000"],
        vec!["https://127.0.0.0", "https://example.com"],
        vec!["127.0.0.1"],
        vec!["127.0.0.2"],
    );
}

#[test]
fn test_get_by_base_domain_ipv6() {
    check_good_bad(
        vec!["http://[::1]", "https://[::1]:8000"],
        vec!["https://[0:0:0:0:0:0:1:1]", "https://example.com"],
        vec!["[::1]", "[0:0:0:0:0:0:0:1]"],
        vec!["[0:0:0:0:0:0:1:2]"],
    );
}

fn has_tombstone(db: &LoginDb, guid: &str) -> bool {
    db.local_rows()
        .iter()
        .any(|row| row.login.guid == guid && row.is_deleted)
}

#[test]
fn test_delete() {
    let mut db = LoginDb::open_in_memory().unwrap();
    let _login = db
        .add(Login {
            hostname: "https://www.example.com".into(),
            http_realm: Some("https://www.example.com".into()),
            username: "test_user".into(),
            password: "test_password".into(),
            ..Login::default()
        })
        .unwrap();

    assert!(db.delete(_login.guid_str()).unwrap());

    let tombstone_exists: bool = has_tombstone(&db, _login.guid_str());

    assert!(tombstone_exists);
    assert!(!db.record_exists(_login.guid_str()).unwrap());
}

#[test]
fn test_wipe() {
    let mut db = LoginDb::open_in_memory().unwrap();
    let login1 = db
        .add(Login {
            hostname: "https://www.example.com".into(),
            http_realm: Some("https://www.example.com".into()),
            username: "test_user_1".into(),
            password: "test_password_1".into(),
            ..Login::default()
        })
        .unwrap();

    let login2 = db
        .add(Login {
            hostname: "https://www.example2.com".into(),
            http_realm: Some("https://www.example2.com".into()),
            username: "test_user_1".into(),
            password: "test_password_2".into(),
            ..Login::default()
        })
        .unwrap();

    let scope = db.begin_interrupt_scope();
    assert!(db.wipe(&scope).is_ok());

    let expected_tombstone_count = 2;
    let actual_tombstone_count: i32 = db
        .local_rows()
        .iter()
        .filter(|row| {
            (row.login.guid == login1.guid_str() || row.login.guid == login2.guid_str())
                && row.is_deleted
        })
        .count() as i32;

    assert_eq!(expected_tombstone_count, actual_tombstone_count);
    assert!(!db.record_exists(login1.guid_str()).unwrap());
    assert!(!db.record_exists(login2.guid_str()).unwrap());
}

fn delete_logins(db: &mut LoginDb, guids: &[String]) {
    let local: Vec<LocalLogin> = db
        .local_rows()
        .into_iter()
        .filter(|row| !guids.contains(&row.login.guid))
        .collect();
    let mirror: Vec<MirrorLogin> = db.mirror_rows();
    let meta: Vec<MetaEntry> = db.meta_entries();
    *db = LoginDb::from_tables(local, mirror, meta).unwrap();
}

#[test]
fn test_import_multiple() {
    struct TestCase {
        logins: Vec<Login>,
        has_populated_metrics: bool,
        expected_metrics: MigrationMetrics,
    }

    let mut db = LoginDb::open_in_memory().unwrap();

    let login = db
        .add(Login {
            hostname: "https://www.example.com".into(),
            http_realm: Some("https://www.example.com".into()),
            username: "test_user_1".into(),
            password: "test_password_1".into(),
            ..Login::default()
        })
        .unwrap();

    let import_with_populated_table = db.import_multiple(Vec::new().as_slice());
    assert!(import_with_populated_table.is_err());
    assert_eq!(
        import_with_populated_table.unwrap_err().message(),
        "The logins tables are not empty"
    );

    delete_logins(&mut db, &[login.guid]);

    let valid_login_guid1: String = random_guid();
    let valid_login1 = Login {
        guid: valid_login_guid1,
        form_submit_url: Some("https://www.example.com".into()),
        hostname: "https://www.example.com".into(),
        http_realm: None,
        username: "test".into(),
        password: "test".into(),
        ..Login::default()
    };
    let valid_login_guid2: String = random_guid();
    let valid_login2 = Login {
        guid: valid_login_guid2,
        form_submit_url: Some("https://www.example2.com".into()),
        hostname: "https://www.example2.com".into(),
        http_realm: None,
        username: "test2".into(),
        password: "test2".into(),
        ..Login::default()
    };
    let valid_login_guid3: String = random_guid();
    let valid_login3 = Login {
        guid: valid_login_guid3,
        form_submit_url: Some("https://www.example3.com".into()),
        hostname: "https://www.example3.com".into(),
        http_realm: None,
        username: "test3".into(),
        password: "test3".into(),
        ..Login::default()
    };
    let duplicate_login_guid: String = random_guid();
    let duplicate_login = Login {
        guid: duplicate_login_guid,
        form_submit_url: Some("https://www.example.com".into()),
        hostname: "https://www.example.com".into(),
        http_realm: None,
        username: "test".into(),
        password: "test2".into(),
        ..Login::default()
    };

    let duplicate_logins = vec![valid_login1.clone(), duplicate_login, valid_login2.clone()];

    let duplicate_logins_metrics = MigrationMetrics {
        fixup_phase: MigrationPhaseMetrics {
            num_processed: 3,
            num_succeeded: 2,
            num_failed: 1,
            errors: vec!["InvalidLogin::DuplicateLogin".into()],
            ..MigrationPhaseMetrics::default()
        },
        insert_phase: MigrationPhaseMetrics {
            num_processed: 2,
            num_succeeded: 2,
            ..MigrationPhaseMetrics::default()
        },
        num_processed: 3,
        num_succeeded: 2,
        num_failed: 1,
        errors: vec!["InvalidLogin::DuplicateLogin".into()],
        ..MigrationMetrics::default()
    };

    let valid_logins = vec![valid_login1, valid_login2, valid_login3];

    let valid_logins_metrics = MigrationMetrics {
        fixup_phase: MigrationPhaseMetrics {
            num_processed: 3,
            num_succeeded: 3,
            ..MigrationPhaseMetrics::default()
        },
        insert_phase: MigrationPhaseMetrics {
            num_processed: 3,
            num_succeeded: 3,
            ..MigrationPhaseMetrics::default()
        },
        num_processed: 3,
        num_succeeded: 3,
        ..MigrationMetrics::default()
    };

    let test_cases = [
        TestCase {
            logins: Vec::new(),
            has_populated_metrics: false,
            expected_metrics: MigrationMetrics {
                ..MigrationMetrics::default()
            },
        },
        TestCase {
            logins: duplicate_logins,
            has_populated_metrics: true,
            expected_metrics: duplicate_logins_metrics,
        },
        TestCase {
            logins: valid_logins,
            has_populated_metrics: true,
            expected_metrics: valid_logins_metrics,
        },
    ];

    for tc in &test_cases {
        let import_result = db.import_multiple(tc.logins.as_slice());
        assert!(import_result.is_ok());

        let mut actual_metrics = import_result.unwrap();

        if tc.has_populated_metrics {
            let mut guids = Vec::new();
            for login in &tc.logins {
                guids.push(login.clone().guid);
            }

            assert_eq!(
                actual_metrics.num_processed,
                tc.expected_metrics.num_processed
            );
            assert_eq!(
                actual_metrics.num_succeeded,
                tc.expected_metrics.num_succeeded
            );
            assert_eq!(actual_metrics.num_failed, tc.expected_metrics.num_failed);
            assert_eq!(actual_metrics.errors, tc.expected_metrics.errors);

            let phases = [
                (
                    actual_metrics.fixup_phase,
                    tc.expected_metrics.fixup_phase.clone(),
                ),
                (
                    actual_metrics.insert_phase,
                    tc.expected_metrics.insert_phase.clone(),
                ),
            ];

            for (actual, expected) in &phases {
                assert_eq!(actual.num_processed, expected.num_processed);
                assert_eq!(actual.num_succeeded, expected.num_succeeded);
                assert_eq!(actual.num_failed, expected.num_failed);
                assert_eq!(actual.errors, expected.errors);
            }

            delete_logins(&mut db, guids.as_slice());
        } else {
            actual_metrics.total_duration = tc.expected_metrics.total_duration;
            actual_metrics.fixup_phase.total_duration =
                tc.expected_metrics.fixup_phase.total_duration;
            actual_metrics.insert_phase.total_duration =
                tc.expected_metrics.insert_phase.total_duration;
            assert_eq!(actual_metrics, tc.expected_metrics);
        }
    }
}

#[test]
fn sync_status_codes_round_trip() {
    assert_eq!(SyncStatus::Synced.code(), 0);
    assert_eq!(SyncStatus::Changed.code(), 1);
    assert_eq!(SyncStatus::New.code(), 2);
    assert_eq!(SyncStatus::from_code(2), Some(SyncStatus::New));
    assert_eq!(SyncStatus::from_code(3), None);
}
