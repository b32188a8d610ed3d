use logins::cmd::{
    escape_apostrophes, ios_reset_dirs, join, logcat_args, process_cmd, AppCommand, AppOpenArgs,
    CmdError, Invocation, LaunchableApp, Tool,
};

fn android(device_id: Option<&str>, scheme: Option<&str>) -> LaunchableApp {
    LaunchableApp::Android {
        package_name: "org.example.app".into(),
        activity_name: ".App".into(),
        device_id: device_id.map(|s| s.to_string()),
        scheme: scheme.map(|s| s.to_string()),
    }
}

fn ios(scheme: Option<&str>) -> LaunchableApp {
    LaunchableApp::Ios {
        device_id: "booted".into(),
        app_id: "org.example.ios".into(),
        scheme: scheme.map(|s| s.to_string()),
    }
}

fn open_args(deeplink: Option<&str>, passthrough: &[&str]) -> AppOpenArgs {
    AppOpenArgs {
        deeplink: deeplink.map(|s| s.to_string()),
        passthrough: passthrough.iter().map(|s| s.to_string()).collect(),
    }
}

fn args(call: &Invocation) -> Vec<&str> {
    call.args.iter().map(|s| s.as_str()).collect()
}

const BREAK: &str = " \\\n        ";

#[test]
fn logcat_shows_the_main_log() {
    assert_eq!(logcat_args(), vec!["logcat", "-b", "main"]);
}

#[test]
fn every_call_begins_with_the_device() {
    let call = android(Some("emulator-5554"), None).exe();
    assert_eq!(call.tool, Tool::Adb);
    assert_eq!(args(&call), vec!["-s", "emulator-5554"]);
    assert!(call.checked);
    let call = android(None, None).exe();
    assert_eq!(call.tool, Tool::Adb);
    assert!(call.args.is_empty());
    let call = ios(None).exe();
    assert_eq!(call.tool, Tool::Xcrun);
    assert_eq!(args(&call), vec!["simctl"]);
}

#[test]
fn kill_stops_the_app() {
    let call = android(Some("dev"), None).kill_app();
    assert_eq!(call.tool, Tool::Adb);
    assert_eq!(
        args(&call),
        vec!["-s", "dev", "shell", "am force-stop org.example.app"]
    );
    assert!(call.checked);
    let call = ios(None).kill_app();
    assert_eq!(call.tool, Tool::Xcrun);
    assert_eq!(
        args(&call),
        vec!["simctl", "terminate", "booted", "org.example.ios"]
    );
    assert!(!call.checked);
}

#[test]
fn reset_clears_the_data_of_the_app() {
    let calls = android(None, None).reset_app();
    assert_eq!(calls.len(), 1);
    assert_eq!(args(&calls[0]), vec!["shell", "pm clear org.example.app"]);
    assert!(calls[0].checked);

    let calls = ios(None).reset_app();
    assert_eq!(calls.len(), 3);
    assert_eq!(
        args(&calls[0]),
        vec!["simctl", "privacy", "booted", "reset", "all", "org.example.ios"]
    );
    assert!(!calls[0].checked);
    assert_eq!(
        args(&calls[1]),
        vec!["simctl", "get_app_container", "booted", "org.example.ios", "data"]
    );
    assert_eq!(
        args(&calls[2]),
        vec!["simctl", "get_app_container", "booted", "org.example.ios", "groups"]
    );
    assert!(calls.iter().all(|c| c.tool == Tool::Xcrun));
}

#[test]
fn the_container_of_an_ios_app_is_asked_of_the_simulator() {
    let call = ios(None).ios_app_container("data");
    assert_eq!(call.tool, Tool::Xcrun);
    assert_eq!(
        args(&call),
        vec!["simctl", "get_app_container", "booted", "org.example.ios", "data"]
    );
}

#[test]
fn the_log_files_of_an_ios_app_are_found_in_its_data_container() {
    assert_eq!(
        ios(None).ios_log_file_command(),
        "find $(xcrun simctl get_app_container booted org.example.ios data) -name \\*.log"
    );
}

#[test]
fn deeplinks_get_the_scheme_of_the_app() {
    let with_scheme = android(None, Some("example"));
    let without = ios(None);
    assert_eq!(with_scheme.create_deeplink(&open_args(None, &[])), Ok(None));
    assert_eq!(without.create_deeplink(&open_args(None, &[])), Ok(None));
    assert_eq!(
        with_scheme.create_deeplink(&open_args(Some("home"), &[])),
        Ok(Some("example://home".to_string()))
    );
    assert_eq!(
        with_scheme.create_deeplink(&open_args(Some("other://home"), &[])),
        Ok(Some("other://home".to_string()))
    );
    assert_eq!(
        without.create_deeplink(&open_args(Some("other://home"), &[])),
        Ok(Some("other://home".to_string()))
    );
    assert_eq!(
        without.create_deeplink(&open_args(Some("home"), &[])),
        Err(CmdError::DeeplinkWithoutScheme)
    );
    assert_eq!(
        ios(Some("ex")).create_deeplink(&open_args(Some("a:/b"), &[])),
        Ok(Some("ex://a:/b".to_string()))
    );
    assert_eq!(
        CmdError::DeeplinkWithoutScheme.message(),
        "Cannot use a deeplink without a scheme for this app"
    );
}

#[test]
fn passthrough_arguments_are_split_at_the_placeholder() {
    assert_eq!(open_args(None, &[]).placeholder(), 0);
    assert_eq!(open_args(None, &["a", "b"]).placeholder(), 2);
    assert_eq!(open_args(None, &["a", "{}", "b", "{}"]).placeholder(), 1);
    assert_eq!(open_args(None, &["{}"]).placeholder(), 0);
    assert_eq!(AppOpenArgs::none().deeplink, None);
    assert!(AppOpenArgs::none().passthrough.is_empty());
}

#[test]
fn android_is_started_through_the_activity_manager() {
    let app = android(Some("dev"), Some("example"));
    let call = app.open(&open_args(None, &[])).unwrap();
    assert_eq!(call.tool, Tool::Adb);
    assert!(call.checked);
    let expected = format!(
        "am start -n org.example.app/.App{b}-a android.intent.action.MAIN{b}-c android.intent.category.LAUNCHER",
        b = BREAK
    );
    assert_eq!(args(&call), vec!["-s", "dev", "shell", expected.as_str()]);

    let call = app
        .open(&open_args(Some("home"), &["-W", "{}", "--ez", "x", "true"]))
        .unwrap();
    let expected = format!(
        "am start -W{b}-a android.intent.action.VIEW{b}-c android.intent.category.DEFAULT{b}-c android.intent.category.BROWSABLE{b}-d example://home{b}--ez{b}x{b}true",
        b = BREAK
    );
    assert_eq!(args(&call), vec!["-s", "dev", "shell", expected.as_str()]);
}

#[test]
fn android_is_handed_the_wishes_as_extras() {
    let app = android(None, None);
    let call = app
        .start_app(true, Some("{\"it's\":1}"), true, &open_args(None, &["tail"]))
        .unwrap();
    let expected = format!(
        "am start -n org.example.app/.App{b}-a android.intent.action.MAIN{b}-c android.intent.category.LAUNCHER{b}--esn nimbus-cli{b}--ei version 1{b}--ez reset-db true{b}--es experiments '{{\"it&apos;s\":1}}'{b}--ez log-state true{b}tail",
        b = BREAK
    );
    assert_eq!(args(&call), vec!["shell", expected.as_str()]);

    let call = app.log_state().unwrap();
    let expected = format!(
        "am start -n org.example.app/.App{b}-a android.intent.action.MAIN{b}-c android.intent.category.LAUNCHER{b}--esn nimbus-cli{b}--ei version 1{b}--ez log-state true",
        b = BREAK
    );
    assert_eq!(args(&call), vec!["shell", expected.as_str()]);

    let call = app.unenroll_all().unwrap();
    let expected = format!(
        "am start -n org.example.app/.App{b}-a android.intent.action.MAIN{b}-c android.intent.category.LAUNCHER{b}--esn nimbus-cli{b}--ei version 1{b}--es experiments '{{\"data\":[]}}'{b}--ez log-state true",
        b = BREAK
    );
    assert_eq!(args(&call), vec!["shell", expected.as_str()]);

    let call = app.start_app(true, None, false, &open_args(None, &[])).unwrap();
    let expected = format!(
        "am start -n org.example.app/.App{b}-a android.intent.action.MAIN{b}-c android.intent.category.LAUNCHER{b}--esn nimbus-cli{b}--ei version 1{b}--ez reset-db true",
        b = BREAK
    );
    assert_eq!(args(&call), vec!["shell", expected.as_str()]);

    assert_eq!(
        app.open(&open_args(Some("home"), &[])).unwrap_err(),
        CmdError::DeeplinkWithoutScheme
    );
}

#[test]
fn ios_is_launched_or_opened_with_a_link() {
    let app = ios(Some("example"));
    let call = app.open(&open_args(None, &["--wait", "{}", "-x"])).unwrap();
    assert_eq!(call.tool, Tool::Xcrun);
    assert!(call.checked);
    assert_eq!(
        args(&call),
        vec!["simctl", "launch", "--wait", "booted", "org.example.ios", "-x"]
    );

    let call = app.open(&open_args(Some("home"), &["-x"])).unwrap();
    assert_eq!(
        args(&call),
        vec!["simctl", "openurl", "booted", "example://home", "-x"]
    );

    let call = app
        .start_app(true, Some("{\"a\":'b'}"), true, &open_args(None, &[]))
        .unwrap();
    assert_eq!(
        args(&call),
        vec![
            "simctl",
            "launch",
            "booted",
            "org.example.ios",
            "--nimbus-cli",
            "--version",
            "1",
            "--reset-db",
            "--experiments",
            "{\"a\":&apos;b&apos;}",
            "--log-state"
        ]
    );

    let call = app
        .start_app(true, None, false, &open_args(Some("x://y"), &[]))
        .unwrap();
    assert_eq!(
        args(&call),
        vec![
            "simctl",
            "openurl",
            "booted",
            "x://y",
            "--nimbus-cli",
            "--version",
            "1",
            "--reset-db"
        ]
    );
}

#[test]
fn a_link_leaves_no_way_to_hand_arguments_to_ios() {
    let app = ios(Some("example"));
    let link = open_args(Some("home"), &[]);
    assert_eq!(
        app.start_app(false, Some("{}"), true, &link).unwrap_err(),
        CmdError::ExperimentsWithOpenUrl
    );
    assert_eq!(
        app.start_app(false, None, true, &link).unwrap_err(),
        CmdError::LogStateWithOpenUrl
    );
    assert_eq!(
        ios(None).start_app(false, Some("{}"), true, &link).unwrap_err(),
        CmdError::DeeplinkWithoutScheme
    );
    assert_eq!(
        CmdError::ExperimentsWithOpenUrl.message(),
        "The iOS simulator's openurl command doesn't support command line arguments which enroll and test-feature relies upon"
    );
    assert_eq!(
        CmdError::LogStateWithOpenUrl.message(),
        "The iOS simulator's openurl command doesn't support command line arguments which log-state relies upon"
    );
}

#[test]
fn joining_and_escaping() {
    assert_eq!(join(&vec![], ", "), "");
    assert_eq!(join(&vec!["a".to_string()], ", "), "a");
    assert_eq!(
        join(&vec!["a".to_string(), "".to_string(), "c".to_string()], ", "),
        "a, , c"
    );
    assert_eq!(escape_apostrophes(""), "");
    assert_eq!(escape_apostrophes("it's 'x'"), "it&apos;s &apos;x&apos;");
    assert_eq!(escape_apostrophes("plain"), "plain");
}

#[test]
fn the_directories_of_an_ios_app_are_read_from_the_list_of_groups() {
    assert_eq!(
        ios_reset_dirs("/data", "group.a\t/groups/a\ngroup.b\t/groups/b\n"),
        vec!["/data", "/groups/a", "/groups/b"]
    );
    assert_eq!(ios_reset_dirs("", ""), Vec::<String>::new());
    assert_eq!(ios_reset_dirs("/data", ""), vec!["/data"]);
    assert_eq!(
        ios_reset_dirs("", "no tab here\nname\t\n\t/only/dir\nx\ty\tz"),
        vec!["/only/dir", "y\tz"]
    );
    assert_eq!(ios_reset_dirs("", "a\tb"), vec!["b"]);
    assert_eq!(ios_reset_dirs("", "\n\na\tb\n\n"), vec!["b"]);
}

#[test]
fn commands_come_down_to_calls() {
    assert!(process_cmd(&AppCommand::NoOp).unwrap().is_empty());

    let calls = process_cmd(&AppCommand::Kill {
        app: android(None, None),
    })
    .unwrap();
    assert_eq!(calls.len(), 1);
    assert_eq!(args(&calls[0]), vec!["shell", "am force-stop org.example.app"]);

    let calls = process_cmd(&AppCommand::Reset { app: ios(None) }).unwrap();
    assert_eq!(calls.len(), 3);

    let calls = process_cmd(&AppCommand::Open {
        app: ios(None),
        open: open_args(None, &[]),
    })
    .unwrap();
    assert_eq!(
        args(&calls[0]),
        vec!["simctl", "launch", "booted", "org.example.ios"]
    );

    let calls = process_cmd(&AppCommand::LogState { app: ios(None) }).unwrap();
    assert_eq!(
        args(&calls[0]),
        vec![
            "simctl",
            "launch",
            "booted",
            "org.example.ios",
            "--nimbus-cli",
            "--version",
            "1",
            "--log-state"
        ]
    );

    let calls = process_cmd(&AppCommand::Unenroll { app: ios(None) }).unwrap();
    assert_eq!(
        args(&calls[0]),
        vec![
            "simctl",
            "launch",
            "booted",
            "org.example.ios",
            "--nimbus-cli",
            "--version",
            "1",
            "--experiments",
            "{\"data\":[]}",
            "--log-state"
        ]
    );

    let calls = process_cmd(&AppCommand::ApplyFile {
        app: ios(None),
        payload: "{\"data\":[1]}".into(),
        preserve_nimbus_db: false,
    })
    .unwrap();
    assert_eq!(
        args(&calls[0]),
        vec![
            "simctl",
            "launch",
            "booted",
            "org.example.ios",
            "--nimbus-cli",
            "--version",
            "1",
            "--reset-db",
            "--experiments",
            "{\"data\":[1]}",
            "--log-state"
        ]
    );

    let calls = process_cmd(&AppCommand::Enroll {
        app: ios(None),
        payload: "{}".into(),
        preserve_nimbus_db: true,
        open: open_args(None, &["-v"]),
    })
    .unwrap();
    assert_eq!(
        args(&calls[0]),
        vec![
            "simctl",
            "launch",
            "booted",
            "org.example.ios",
            "--nimbus-cli",
            "--version",
            "1",
            "--experiments",
            "{}",
            "--log-state",
            "-v"
        ]
    );

    let failed = process_cmd(&AppCommand::Enroll {
        app: ios(Some("ex")),
        payload: "{}".into(),
        preserve_nimbus_db: true,
        open: open_args(Some("home"), &[]),
    });
    assert_eq!(failed.unwrap_err(), CmdError::ExperimentsWithOpenUrl);
}
