//! The command lines with which an app under test is driven on a device or a simulator.
//!
//! Nothing here runs a command: each function says which tool is to be called with which
//! arguments, and the caller runs it.

use vstd::prelude::*;
use vstd::string::StringExecFns;
use crate::text::{contains_text, has_infix, opt_text, push_char, texts, to_chars};

verus! {

/// An app that can be launched, and the device it runs on.
#[derive(Debug)]
#[allow(inconsistent_fields)]
pub enum LaunchableApp {
    Android {
        package_name: String,
        activity_name: String,
        device_id: Option<String>,
        scheme: Option<String>,
    },
    Ios { device_id: String, app_id: String, scheme: Option<String> },
}

/// The mathematical value of a [`LaunchableApp`].
#[allow(inconsistent_fields)]
pub enum AppView {
    Android {
        package_name: Seq<char>,
        activity_name: Seq<char>,
        device_id: Option<Seq<char>>,
        scheme: Option<Seq<char>>,
    },
    Ios { device_id: Seq<char>, app_id: Seq<char>, scheme: Option<Seq<char>> },
}

impl View for LaunchableApp {
    type V = AppView;

    open spec fn view(&self) -> AppView {
        match self {
            LaunchableApp::Android { package_name, activity_name, device_id, scheme } => {
                AppView::Android {
                    package_name: package_name@,
                    activity_name: activity_name@,
                    device_id: opt_text(*device_id),
                    scheme: opt_text(*scheme),
                }
            },
            LaunchableApp::Ios { device_id, app_id, scheme } => AppView::Ios {
                device_id: device_id@,
                app_id: app_id@,
                scheme: opt_text(*scheme),
            },
        }
    }
}

/// How the app is to be opened.
#[derive(Debug)]
pub struct AppOpenArgs {
    /// The link to open the app with, if any.
    pub deeplink: Option<String>,
    /// Arguments that are handed through. Those before the placeholder `{}` go to the tool
    /// that starts the app, those after it, or all where there is no placeholder, to the app.
    pub passthrough: Vec<String>,
}

/// The mathematical value of an [`AppOpenArgs`].
pub struct OpenArgsView {
    pub deeplink: Option<Seq<char>>,
    pub passthrough: Seq<Seq<char>>,
}

impl View for AppOpenArgs {
    type V = OpenArgsView;

    open spec fn view(&self) -> OpenArgsView {
        OpenArgsView { deeplink: opt_text(self.deeplink), passthrough: texts(self.passthrough@) }
    }
}

/// The tool that a command line calls.
#[derive(Clone, Copy, Debug, PartialEq, Eq, Structural)]
pub enum Tool {
    /// The Android debug bridge.
    Adb,
    /// The runner of the Xcode tools.
    Xcrun,
}

/// One call of a tool.
#[derive(Debug)]
pub struct Invocation {
    pub tool: Tool,
    pub args: Vec<String>,
    /// Whether the call counts as failed where the tool exits with an error; where not, the
    /// call counts as done whatever the tool says.
    pub checked: bool,
}

/// The mathematical value of an [`Invocation`].
pub struct InvocationView {
    pub tool: Tool,
    pub args: Seq<Seq<char>>,
    pub checked: bool,
}

impl View for Invocation {
    type V = InvocationView;

    open spec fn view(&self) -> InvocationView {
        InvocationView { tool: self.tool, args: texts(self.args@), checked: self.checked }
    }
}

/// Why no command line can be given.
#[derive(Clone, Copy, Debug, PartialEq, Eq, Structural)]
pub enum CmdError {
    /// A link without a scheme was given for an app that has no scheme of its own.
    DeeplinkWithoutScheme,
    /// Experiments cannot be handed to an iOS app that is opened with a link.
    ExperimentsWithOpenUrl,
    /// The state cannot be logged by an iOS app that is opened with a link.
    LogStateWithOpenUrl,
}

/// The message of an error.
pub open spec fn cmd_error_message(e: CmdError) -> Seq<char> {
    match e {
        CmdError::DeeplinkWithoutScheme => "Cannot use a deeplink without a scheme for this app"@,
        CmdError::ExperimentsWithOpenUrl => "The iOS simulator's openurl command doesn't support command line arguments which enroll and test-feature relies upon"@,
        CmdError::LogStateWithOpenUrl => "The iOS simulator's openurl command doesn't support command line arguments which log-state relies upon"@,
    }
}

impl CmdError {
    /// The message of the error.
    pub fn message(&self) -> (r: &'static str)
        ensures
            r@ == cmd_error_message(*self),
    {
        match self {
            CmdError::DeeplinkWithoutScheme => "Cannot use a deeplink without a scheme for this app",
            CmdError::ExperimentsWithOpenUrl => "The iOS simulator's openurl command doesn't support command line arguments which enroll and test-feature relies upon",
            CmdError::LogStateWithOpenUrl => "The iOS simulator's openurl command doesn't support command line arguments which log-state relies upon",
        }
    }
}

/// The parts of `parts`, with `sep` between each two.
pub open spec fn joined(parts: Seq<Seq<char>>, sep: Seq<char>) -> Seq<char>
    decreases parts.len(),
{
    if parts.len() == 0 {
        Seq::empty()
    } else if parts.len() == 1 {
        parts[0]
    } else {
        joined(parts.drop_last(), sep) + sep + parts.last()
    }
}

/// `s` with every apostrophe replaced by `&apos;`.
pub open spec fn escaped(s: Seq<char>) -> Seq<char>
    decreases s.len(),
{
    if s.len() == 0 {
        Seq::empty()
    } else if s.last() == '\'' {
        escaped(s.drop_last()) + "&apos;"@
    } else {
        escaped(s.drop_last()).push(s.last())
    }
}

/// The place of the first placeholder `{}` in `items`, or their number where there is none.
pub open spec fn placeholder_at(items: Seq<Seq<char>>) -> int
    decreases items.len(),
{
    if items.len() == 0 {
        0
    } else if items.first() == "{}"@ {
        0
    } else {
        1 + placeholder_at(items.drop_first())
    }
}

/// The arguments for the tool that starts the app: those before the first placeholder, and
/// none where there is no placeholder.
pub open spec fn starting_args(items: Seq<Seq<char>>) -> Seq<Seq<char>> {
    if placeholder_at(items) < items.len() {
        items.take(placeholder_at(items))
    } else {
        Seq::empty()
    }
}

/// The arguments for the app: those after the first placeholder, and all where there is no
/// placeholder.
pub open spec fn ending_args(items: Seq<Seq<char>>) -> Seq<Seq<char>> {
    if placeholder_at(items) < items.len() {
        items.skip(placeholder_at(items) + 1)
    } else {
        items
    }
}

/// The place of the placeholder is within the list or at its end, and no item before it is a
/// placeholder.
pub proof fn lemma_placeholder_at(items: Seq<Seq<char>>)
    ensures
        0 <= placeholder_at(items) <= items.len(),
        forall|k: int| 0 <= k < placeholder_at(items) ==> #[trigger] items[k] != "{}"@,
        placeholder_at(items) < items.len() ==> items[placeholder_at(items)] == "{}"@,
    decreases items.len(),
{
    if items.len() > 0 && items.first() != "{}"@ {
        lemma_placeholder_at(items.drop_first());
        assert forall|k: int| 0 <= k < placeholder_at(items) implies #[trigger] items[k] != "{}"@ by {
            if k > 0 {
                assert(items[k] == items.drop_first()[k - 1]);
            }
        }
    }
}

/// Adds a copy of `s` at the end of `v`.
fn push_text(v: &mut Vec<String>, s: &str)
    ensures
        texts(final(v)@) == texts(old(v)@).push(s@),
{
    v.push(s.to_owned());
    assert(texts(v@) =~= texts(old(v)@).push(s@));
}

/// Adds copies of the items of `more` from `from` up to `to` at the end of `v`.
fn push_texts(v: &mut Vec<String>, more: &Vec<String>, from: usize, to: usize)
    requires
        from <= to <= more.len(),
    ensures
        texts(final(v)@) == texts(old(v)@) + texts(more@).subrange(from as int, to as int),
{
    let mut i: usize = from;
    assert(texts(v@) =~= texts(old(v)@) + texts(more@).subrange(from as int, from as int));
    while i < to
        invariant
            from <= i <= to <= more.len(),
            texts(v@) == texts(old(v)@) + texts(more@).subrange(from as int, i as int),
        decreases to - i,
    {
        let ghost before = v@;
        v.push(more[i].clone());
        assert(texts(v@) =~= texts(before).push(more@[i as int]@));
        assert(texts(more@).subrange(from as int, i + 1) =~= texts(more@).subrange(
            from as int,
            i as int,
        ).push(more@[i as int]@));
        assert(texts(v@) =~= texts(old(v)@) + texts(more@).subrange(from as int, i + 1));
        i += 1;
    }
}

/// `a` followed by `b`.
fn concat2(a: &str, b: &str) -> (r: String)
    ensures
        r@ == a@ + b@,
{
    String::from_str(a).concat(b)
}

/// The items of `parts`, with `sep` between each two.
pub fn join(parts: &Vec<String>, sep: &str) -> (r: String)
    ensures
        r@ == joined(texts(parts@), sep@),
{
    let mut out = String::new();
    let mut i: usize = 0;
    assert(texts(parts@).take(0) =~= Seq::empty());
    while i < parts.len()
        invariant
            i <= parts.len(),
            out@ == joined(texts(parts@).take(i as int), sep@),
        decreases parts.len() - i,
    {
        proof {
            crate::seqs::lemma_take_next(texts(parts@), i as int);
            if i > 0 {
                assert(texts(parts@).take(i + 1).len() > 1);
            } else {
                assert(texts(parts@).take(1)[0] == parts@[0]@);
            }
        }
        if i > 0 {
            out.append(sep);
        }
        out.append(parts[i].as_str());
        assert(out@ =~= joined(texts(parts@).take(i + 1), sep@));
        i += 1;
    }
    assert(texts(parts@).take(i as int) =~= texts(parts@));
    out
}

/// A copy of `s` in which every apostrophe is replaced by `&apos;`.
pub fn escape_apostrophes(s: &str) -> (r: String)
    ensures
        r@ == escaped(s@),
{
    let chars = to_chars(s);
    let mut out = String::new();
    let mut i: usize = 0;
    assert(s@.take(0) =~= Seq::empty());
    while i < chars.len()
        invariant
            i <= chars.len(),
            chars@ == s@,
            out@ == escaped(s@.take(i as int)),
        decreases chars.len() - i,
    {
        proof {
            crate::seqs::lemma_take_next(s@, i as int);
        }
        if chars[i] == '\'' {
            out.append("&apos;");
        } else {
            push_char(&mut out, chars[i]);
        }
        i += 1;
    }
    assert(s@.take(i as int) =~= s@);
    out
}

/// The arguments with which `adb` shows the main log.
pub open spec fn logcat_words() -> Seq<Seq<char>> {
    seq!["logcat"@, "-b"@, "main"@]
}

/// The arguments with which `adb` shows the main log.
pub fn logcat_args<'a>() -> (r: Vec<&'a str>)
    ensures
        r@.map_values(|s: &str| s@) == logcat_words(),
{
    let r = vec!["logcat", "-b", "main"];
    assert(r@.map_values(|s: &str| s@) =~= logcat_words());
    r
}

impl AppOpenArgs {
    /// Opens the app without a link and without further arguments.
    pub fn none() -> (r: AppOpenArgs)
        ensures
            r@ == (OpenArgsView { deeplink: None, passthrough: Seq::empty() }),
    {
        let r = AppOpenArgs { deeplink: None, passthrough: Vec::new() };
        assert(texts(r.passthrough@) =~= Seq::empty());
        r
    }

    /// The place of the first placeholder among the arguments that are handed through, or
    /// their number where there is none.
    pub fn placeholder(&self) -> (r: usize)
        ensures
            r == placeholder_at(self@.passthrough),
            r <= self.passthrough.len(),
    {
        let mut i: usize = 0;
        let marker: String = "{}".to_owned();
        assert(self@.passthrough.skip(0) =~= self@.passthrough);
        while i < self.passthrough.len()
            invariant
                i <= self.passthrough.len(),
                marker@ == "{}"@,
                placeholder_at(self@.passthrough) == i + placeholder_at(
                    self@.passthrough.skip(i as int),
                ),
            decreases self.passthrough.len() - i,
        {
            assert(self@.passthrough.skip(i as int).first() == self.passthrough@[i as int]@);
            if self.passthrough[i] == marker {
                return i;
            }
            assert(self@.passthrough.skip(i as int).drop_first() =~= self@.passthrough.skip(i + 1));
            i += 1;
        }
        i
    }
}

/// What is put between the arguments of a start command when they are shown as one line.
pub open spec fn line_break() -> Seq<char> {
    " \\\n        "@
}

/// The payload with which an app is told to leave every experiment.
pub open spec fn unenroll_payload() -> Seq<char> {
    "{\"data\":[]}"@
}

/// The tool that drives `app`.
pub open spec fn tool_of(app: AppView) -> Tool {
    match app {
        AppView::Android { .. } => Tool::Adb,
        AppView::Ios { .. } => Tool::Xcrun,
    }
}

/// The arguments that every call for `app` begins with: the device for Android where one is
/// named, the simulator control for iOS.
pub open spec fn exe_args(app: AppView) -> Seq<Seq<char>> {
    match app {
        AppView::Android { device_id: Some(id), .. } => seq!["-s"@, id],
        AppView::Android { device_id: None, .. } => Seq::empty(),
        AppView::Ios { .. } => seq!["simctl"@],
    }
}

/// The call that stops `app`.
pub open spec fn kill_call(app: AppView) -> InvocationView {
    match app {
        AppView::Android { package_name, .. } => InvocationView {
            tool: Tool::Adb,
            args: exe_args(app) + seq!["shell"@, "am force-stop "@ + package_name],
            checked: true,
        },
        AppView::Ios { device_id, app_id, .. } => InvocationView {
            tool: Tool::Xcrun,
            args: exe_args(app) + seq!["terminate"@, device_id, app_id],
            checked: false,
        },
    }
}

/// The call that asks the simulator for the directory of a container of the iOS app.
pub open spec fn container_call(device_id: Seq<char>, app_id: Seq<char>, container: Seq<char>) -> InvocationView {
    InvocationView {
        tool: Tool::Xcrun,
        args: seq!["simctl"@, "get_app_container"@, device_id, app_id, container],
        checked: false,
    }
}

/// The calls that put `app` back into the state in which it was installed. For Android one
/// call clears the data of the package. For iOS the first call resets the privacy settings,
/// and the second and third ask for the data container and for the group containers, whose
/// directories are then to be emptied.
pub open spec fn reset_calls(app: AppView) -> Seq<InvocationView> {
    match app {
        AppView::Android { package_name, .. } => seq![
            InvocationView {
                tool: Tool::Adb,
                args: exe_args(app) + seq!["shell"@, "pm clear "@ + package_name],
                checked: true,
            },
        ],
        AppView::Ios { device_id, app_id, .. } => seq![
            InvocationView {
                tool: Tool::Xcrun,
                args: exe_args(app) + seq!["privacy"@, device_id, "reset"@, "all"@, app_id],
                checked: false,
            },
            container_call(device_id, app_id, "data"@),
            container_call(device_id, app_id, "groups"@),
        ],
    }
}

/// The shell command that finds the log files of the iOS app.
pub open spec fn log_file_command(device_id: Seq<char>, app_id: Seq<char>) -> Seq<char> {
    "find $(xcrun simctl get_app_container "@ + device_id + " "@ + app_id
        + " data) -name \\*.log"@
}

/// The scheme of `app`, if it has one.
pub open spec fn scheme_of(app: AppView) -> Option<Seq<char>> {
    match app {
        AppView::Android { scheme, .. } => scheme,
        AppView::Ios { scheme, .. } => scheme,
    }
}

/// The link with which `app` is opened: none where none is asked for; the link that is asked
/// for where it names a scheme; else that link behind the scheme of the app, which must have
/// one.
pub open spec fn deeplink_of(app: AppView, open: OpenArgsView) -> Result<Option<Seq<char>>, CmdError> {
    match open.deeplink {
        None => Ok(None),
        Some(link) => if has_infix(link, "://"@) {
            Ok(Some(link))
        } else {
            match scheme_of(app) {
                Some(scheme) => Ok(Some(scheme + "://"@ + link)),
                None => Err(CmdError::DeeplinkWithoutScheme),
            }
        },
    }
}

/// The words that tell the Android activity manager what to start.
pub open spec fn android_target(
    package_name: Seq<char>,
    activity_name: Seq<char>,
    link: Option<Seq<char>>,
) -> Seq<Seq<char>> {
    match link {
        Some(l) => seq![
            "-a android.intent.action.VIEW"@,
            "-c android.intent.category.DEFAULT"@,
            "-c android.intent.category.BROWSABLE"@,
            "-d "@ + l,
        ],
        None => seq![
            "-n "@ + package_name + "/"@ + activity_name,
            "-a android.intent.action.MAIN"@,
            "-c android.intent.category.LAUNCHER"@,
        ],
    }
}

/// The words that hand the wishes of the caller to an Android app.
pub open spec fn android_extras(reset_db: bool, payload: Option<Seq<char>>, log_state: bool) -> Seq<
    Seq<char>,
> {
    (if log_state || payload is Some || reset_db {
        seq!["--esn nimbus-cli"@, "--ei version 1"@]
    } else {
        Seq::empty()
    }) + (if reset_db {
        seq!["--ez reset-db true"@]
    } else {
        Seq::empty()
    }) + (match payload {
        Some(p) => seq!["--es experiments '"@ + escaped(p) + "'"@],
        None => Seq::empty(),
    }) + (if log_state {
        seq!["--ez log-state true"@]
    } else {
        Seq::empty()
    })
}

/// The words that hand the wishes of the caller to an iOS app.
pub open spec fn ios_extras(reset_db: bool, payload: Option<Seq<char>>, log_state: bool) -> Seq<
    Seq<char>,
> {
    (if log_state || payload is Some || reset_db {
        seq!["--nimbus-cli"@, "--version"@, "1"@]
    } else {
        Seq::empty()
    }) + (if reset_db {
        seq!["--reset-db"@]
    } else {
        Seq::empty()
    }) + (match payload {
        Some(p) => seq!["--experiments"@, escaped(p)],
        None => Seq::empty(),
    }) + (if log_state {
        seq!["--log-state"@]
    } else {
        Seq::empty()
    })
}

/// The call that starts `app`, or the reason why it cannot be started as asked. An Android
/// app is started through the activity manager, whose arguments make one shell command. An
/// iOS app is launched, or opened with a link; a link leaves no way to hand over experiments
/// or to ask for the state to be logged.
pub open spec fn start_call(
    app: AppView,
    reset_db: bool,
    payload: Option<Seq<char>>,
    log_state: bool,
    open: OpenArgsView,
) -> Result<InvocationView, CmdError> {
    match deeplink_of(app, open) {
        Err(e) => Err(e),
        Ok(link) => match app {
            AppView::Android { package_name, activity_name, .. } => Ok(
                InvocationView {
                    tool: Tool::Adb,
                    args: exe_args(app) + seq![
                        "shell"@,
                        "am start "@ + joined(
                            starting_args(open.passthrough) + android_target(
                                package_name,
                                activity_name,
                                link,
                            ) + android_extras(reset_db, payload, log_state) + ending_args(
                                open.passthrough,
                            ),
                            line_break(),
                        ),
                    ],
                    checked: true,
                },
            ),
            AppView::Ios { device_id, app_id, .. } => if link is Some && payload is Some {
                Err(CmdError::ExperimentsWithOpenUrl)
            } else if link is Some && log_state {
                Err(CmdError::LogStateWithOpenUrl)
            } else {
                Ok(
                    InvocationView {
                        tool: Tool::Xcrun,
                        args: exe_args(app) + seq![
                            match link {
                                Some(_) => "openurl"@,
                                None => "launch"@,
                            },
                        ] + starting_args(open.passthrough) + seq![
                            device_id,
                            match link {
                                Some(l) => l,
                                None => app_id,
                            },
                        ] + ios_extras(reset_db, payload, log_state) + ending_args(
                            open.passthrough,
                        ),
                        checked: true,
                    },
                )
            },
        },
    }
}

/// The view of an optional result of [`LaunchableApp::create_deeplink`].
pub open spec fn link_view(r: Result<Option<String>, CmdError>) -> Result<Option<Seq<char>>, CmdError> {
    match r {
        Ok(o) => Ok(opt_text(o)),
        Err(e) => Err(e),
    }
}

/// The view of a call or of the reason why there is none.
pub open spec fn call_view(r: Result<Invocation, CmdError>) -> Result<InvocationView, CmdError> {
    match r {
        Ok(c) => Ok(c@),
        Err(e) => Err(e),
    }
}

/// The views of a list of calls.
pub open spec fn call_views(v: Seq<Invocation>) -> Seq<InvocationView> {
    v.map_values(|c: Invocation| c@)
}

/// The view of an optional text that is borrowed.
pub open spec fn opt_str(o: Option<&str>) -> Option<Seq<char>> {
    match o {
        Some(s) => Some(s@),
        None => None,
    }
}

/// Adds the arguments for the tool that starts the app.
fn push_starting(args: &mut Vec<String>, open: &AppOpenArgs)
    ensures
        texts(final(args)@) == texts(old(args)@) + starting_args(open@.passthrough),
{
    let at = open.placeholder();
    proof {
        lemma_placeholder_at(open@.passthrough);
    }
    if at < open.passthrough.len() {
        push_texts(args, &open.passthrough, 0, at);
        assert(texts(args@) =~= texts(old(args)@) + starting_args(open@.passthrough));
    } else {
        assert(texts(args@) =~= texts(old(args)@) + starting_args(open@.passthrough));
    }
}

/// Adds the arguments for the app.
fn push_ending(args: &mut Vec<String>, open: &AppOpenArgs)
    ensures
        texts(final(args)@) == texts(old(args)@) + ending_args(open@.passthrough),
{
    let at = open.placeholder();
    let n = open.passthrough.len();
    proof {
        lemma_placeholder_at(open@.passthrough);
    }
    if at < n {
        push_texts(args, &open.passthrough, at + 1, n);
        assert(texts(args@) =~= texts(old(args)@) + ending_args(open@.passthrough));
    } else {
        push_texts(args, &open.passthrough, 0, n);
        assert(texts(args@) =~= texts(old(args)@) + ending_args(open@.passthrough));
    }
}

/// Adds the words that tell the Android activity manager what to start.
fn push_android_target(
    args: &mut Vec<String>,
    package_name: &str,
    activity_name: &str,
    link: &Option<String>,
)
    ensures
        texts(final(args)@) == texts(old(args)@) + android_target(
            package_name@,
            activity_name@,
            opt_text(*link),
        ),
{
    match link {
        Some(l) => {
            push_text(args, "-a android.intent.action.VIEW");
            push_text(args, "-c android.intent.category.DEFAULT");
            push_text(args, "-c android.intent.category.BROWSABLE");
            let data = concat2("-d ", l.as_str());
            push_text(args, data.as_str());
            assert(texts(args@) =~= texts(old(args)@) + android_target(
                package_name@,
                activity_name@,
                opt_text(*link),
            ));
        },
        None => {
            let mut name = concat2("-n ", package_name);
            name.append("/");
            name.append(activity_name);
            push_text(args, name.as_str());
            push_text(args, "-a android.intent.action.MAIN");
            push_text(args, "-c android.intent.category.LAUNCHER");
            assert(texts(args@) =~= texts(old(args)@) + android_target(
                package_name@,
                activity_name@,
                opt_text(*link),
            ));
        },
    }
}

/// Adds the words that hand the wishes of the caller to an Android app.
fn push_android_extras(args: &mut Vec<String>, reset_db: bool, payload: Option<&str>, log_state: bool)
    ensures
        texts(final(args)@) == texts(old(args)@) + android_extras(
            reset_db,
            opt_str(payload),
            log_state,
        ),
{
    let ghost base = texts(args@);
    let ghost s1: Seq<Seq<char>> = if log_state || payload is Some || reset_db {
        seq!["--esn nimbus-cli"@, "--ei version 1"@]
    } else {
        Seq::empty()
    };
    let ghost s2: Seq<Seq<char>> = if reset_db {
        seq!["--ez reset-db true"@]
    } else {
        Seq::empty()
    };
    let ghost s3: Seq<Seq<char>> = match payload {
        Some(p) => seq!["--es experiments '"@ + escaped(p@) + "'"@],
        None => Seq::empty(),
    };
    let ghost s4: Seq<Seq<char>> = if log_state {
        seq!["--ez log-state true"@]
    } else {
        Seq::empty()
    };
    if log_state || payload.is_some() || reset_db {
        push_text(args, "--esn nimbus-cli");
        push_text(args, "--ei version 1");
    }
    assert(texts(args@) =~= base + s1);
    if reset_db {
        push_text(args, "--ez reset-db true");
    }
    assert(texts(args@) =~= base + s1 + s2);
    if let Some(p) = payload {
        let mut extra = concat2("--es experiments '", escape_apostrophes(p).as_str());
        extra.append("'");
        push_text(args, extra.as_str());
    }
    assert(texts(args@) =~= base + s1 + s2 + s3);
    if log_state {
        push_text(args, "--ez log-state true");
    }
    assert(texts(args@) =~= base + s1 + s2 + s3 + s4);
    assert(android_extras(reset_db, opt_str(payload), log_state) == s1 + s2 + s3 + s4);
    assert(base + s1 + s2 + s3 + s4 =~= base + (s1 + s2 + s3 + s4));
}

/// Adds the words that hand the wishes of the caller to an iOS app.
fn push_ios_extras(args: &mut Vec<String>, reset_db: bool, payload: Option<&str>, log_state: bool)
    ensures
        texts(final(args)@) == texts(old(args)@) + ios_extras(reset_db, opt_str(payload), log_state),
{
    let ghost base = texts(args@);
    let ghost s1: Seq<Seq<char>> = if log_state || payload is Some || reset_db {
        seq!["--nimbus-cli"@, "--version"@, "1"@]
    } else {
        Seq::empty()
    };
    let ghost s2: Seq<Seq<char>> = if reset_db {
        seq!["--reset-db"@]
    } else {
        Seq::empty()
    };
    let ghost s3: Seq<Seq<char>> = match payload {
        Some(p) => seq!["--experiments"@, escaped(p@)],
        None => Seq::empty(),
    };
    let ghost s4: Seq<Seq<char>> = if log_state {
        seq!["--log-state"@]
    } else {
        Seq::empty()
    };
    if log_state || payload.is_some() || reset_db {
        push_text(args, "--nimbus-cli");
        push_text(args, "--version");
        push_text(args, "1");
    }
    assert(texts(args@) =~= base + s1);
    if reset_db {
        push_text(args, "--reset-db");
    }
    assert(texts(args@) =~= base + s1 + s2);
    if let Some(p) = payload {
        push_text(args, "--experiments");
        push_text(args, escape_apostrophes(p).as_str());
    }
    assert(texts(args@) =~= base + s1 + s2 + s3);
    if log_state {
        push_text(args, "--log-state");
    }
    assert(texts(args@) =~= base + s1 + s2 + s3 + s4);
    assert(ios_extras(reset_db, opt_str(payload), log_state) == s1 + s2 + s3 + s4);
    assert(base + s1 + s2 + s3 + s4 =~= base + (s1 + s2 + s3 + s4));
}

impl LaunchableApp {
    /// The beginning of every call for this app: the tool, and the arguments that name the
    /// device or the simulator control.
    pub fn exe(&self) -> (r: Invocation)
        ensures
            r@ == (InvocationView { tool: tool_of(self@), args: exe_args(self@), checked: true }),
    {
        let mut args: Vec<String> = Vec::new();
        assert(texts(args@) =~= Seq::empty());
        match self {
            LaunchableApp::Android { device_id, .. } => {
                if let Some(id) = device_id {
                    push_text(&mut args, "-s");
                    push_text(&mut args, id.as_str());
                    assert(texts(args@) =~= seq!["-s"@, id@]);
                }
                Invocation { tool: Tool::Adb, args, checked: true }
            },
            LaunchableApp::Ios { .. } => {
                push_text(&mut args, "simctl");
                assert(texts(args@) =~= seq!["simctl"@]);
                Invocation { tool: Tool::Xcrun, args, checked: true }
            },
        }
    }

    /// The call that stops the app.
    pub fn kill_app(&self) -> (r: Invocation)
        ensures
            r@ == kill_call(self@),
    {
        let mut call = self.exe();
        match self {
            LaunchableApp::Android { package_name, .. } => {
                push_text(&mut call.args, "shell");
                let stop = concat2("am force-stop ", package_name.as_str());
                push_text(&mut call.args, stop.as_str());
                assert(texts(call.args@) =~= kill_call(self@).args);
                call
            },
            LaunchableApp::Ios { app_id, device_id, .. } => {
                push_text(&mut call.args, "terminate");
                push_text(&mut call.args, device_id.as_str());
                push_text(&mut call.args, app_id.as_str());
                call.checked = false;
                assert(texts(call.args@) =~= kill_call(self@).args);
                call
            },
        }
    }

    /// The call that asks the simulator for the directory of the container `container` of the
    /// iOS app. Its output, without the white space around it, is that directory.
    pub fn ios_app_container(&self, container: &str) -> (r: Invocation)
        requires
            self@ is Ios,
        ensures
            r@ == container_call(self@->Ios_device_id, self@->Ios_app_id, container@),
    {
        let mut call = self.exe();
        match self {
            LaunchableApp::Ios { app_id, device_id, .. } => {
                push_text(&mut call.args, "get_app_container");
                push_text(&mut call.args, device_id.as_str());
                push_text(&mut call.args, app_id.as_str());
                push_text(&mut call.args, container);
                call.checked = false;
                assert(texts(call.args@) =~= container_call(device_id@, app_id@, container@).args);
                call
            },
            LaunchableApp::Android { .. } => call,
        }
    }

    /// The calls that put the app back into the state in which it was installed.
    pub fn reset_app(&self) -> (r: Vec<Invocation>)
        ensures
            call_views(r@) == reset_calls(self@),
    {
        let mut calls: Vec<Invocation> = Vec::new();
        let mut call = self.exe();
        match self {
            LaunchableApp::Android { package_name, .. } => {
                push_text(&mut call.args, "shell");
                let clear = concat2("pm clear ", package_name.as_str());
                push_text(&mut call.args, clear.as_str());
                assert(texts(call.args@) =~= reset_calls(self@)[0].args);
                calls.push(call);
                assert(call_views(calls@) =~= reset_calls(self@));
                calls
            },
            LaunchableApp::Ios { app_id, device_id, .. } => {
                push_text(&mut call.args, "privacy");
                push_text(&mut call.args, device_id.as_str());
                push_text(&mut call.args, "reset");
                push_text(&mut call.args, "all");
                push_text(&mut call.args, app_id.as_str());
                call.checked = false;
                assert(texts(call.args@) =~= reset_calls(self@)[0].args);
                calls.push(call);
                calls.push(self.ios_app_container("data"));
                calls.push(self.ios_app_container("groups"));
                assert(call_views(calls@) =~= reset_calls(self@));
                calls
            },
        }
    }

    /// The shell command that finds the log files of the iOS app.
    pub fn ios_log_file_command(&self) -> (r: String)
        requires
            self@ is Ios,
        ensures
            r@ == log_file_command(self@->Ios_device_id, self@->Ios_app_id),
    {
        match self {
            LaunchableApp::Ios { device_id, app_id, .. } => {
                let mut out = String::from_str("find $(xcrun simctl get_app_container ");
                out.append(device_id.as_str());
                out.append(" ");
                out.append(app_id.as_str());
                out.append(" data) -name \\*.log");
                out
            },
            LaunchableApp::Android { .. } => String::new(),
        }
    }

    /// The link with which the app is opened, if any.
    pub fn create_deeplink(&self, open: &AppOpenArgs) -> (r: Result<Option<String>, CmdError>)
        ensures
            link_view(r) == deeplink_of(self@, open@),
    {
        let link: &String = match &open.deeplink {
            None => {
                return Ok(None);
            },
            Some(l) => l,
        };
        if contains_text(link.as_str(), "://") {
            return Ok(Some(link.clone()));
        }
        let scheme: &Option<String> = match self {
            LaunchableApp::Android { scheme, .. } => scheme,
            LaunchableApp::Ios { scheme, .. } => scheme,
        };
        match scheme {
            Some(s) => {
                let mut out = s.clone();
                out.append("://");
                out.append(link.as_str());
                Ok(Some(out))
            },
            None => Err(CmdError::DeeplinkWithoutScheme),
        }
    }

    /// The call that starts an Android app.
    fn android_start(
        &self,
        reset_db: bool,
        payload: Option<&str>,
        log_state: bool,
        open: &AppOpenArgs,
    ) -> (r: Result<Invocation, CmdError>)
        requires
            self@ is Android,
        ensures
            call_view(r) == start_call(self@, reset_db, opt_str(payload), log_state, open@),
    {
        let link = match self.create_deeplink(open) {
            Ok(l) => l,
            Err(e) => {
                return Err(e);
            },
        };
        let mut call = self.exe();
        match self {
            LaunchableApp::Android { package_name, activity_name, .. } => {
                let mut args: Vec<String> = Vec::new();
                assert(texts(args@) =~= Seq::empty());
                push_starting(&mut args, open);
                push_android_target(&mut args, package_name.as_str(), activity_name.as_str(), &link);
                push_android_extras(&mut args, reset_db, payload, log_state);
                push_ending(&mut args, open);
                assert(texts(args@) =~= starting_args(open@.passthrough) + android_target(
                    package_name@,
                    activity_name@,
                    opt_text(link),
                ) + android_extras(reset_db, opt_str(payload), log_state) + ending_args(
                    open@.passthrough,
                ));
                let sh = concat2("am start ", join(&args, " \\\n        ").as_str());
                push_text(&mut call.args, "shell");
                push_text(&mut call.args, sh.as_str());
                assert(texts(call.args@) =~= exe_args(self@) + seq!["shell"@, sh@]);
                Ok(call)
            },
            LaunchableApp::Ios { .. } => Ok(call),
        }
    }

    /// The call that starts an iOS app.
    fn ios_start(
        &self,
        reset_db: bool,
        payload: Option<&str>,
        log_state: bool,
        open: &AppOpenArgs,
    ) -> (r: Result<Invocation, CmdError>)
        requires
            self@ is Ios,
        ensures
            call_view(r) == start_call(self@, reset_db, opt_str(payload), log_state, open@),
    {
        let link = match self.create_deeplink(open) {
            Ok(l) => l,
            Err(e) => {
                return Err(e);
            },
        };
        if link.is_some() && payload.is_some() {
            return Err(CmdError::ExperimentsWithOpenUrl);
        }
        if link.is_some() && log_state {
            return Err(CmdError::LogStateWithOpenUrl);
        }
        let mut call = self.exe();
        match self {
            LaunchableApp::Ios { app_id, device_id, .. } => {
                let ghost verb = match opt_text(link) {
                    Some(_) => "openurl"@,
                    None => "launch"@,
                };
                let ghost what = match opt_text(link) {
                    Some(l) => l,
                    None => app_id@,
                };
                match &link {
                    Some(_) => {
                        push_text(&mut call.args, "openurl");
                    },
                    None => {
                        push_text(&mut call.args, "launch");
                    },
                }
                assert(texts(call.args@) =~= exe_args(self@) + seq![verb]);
                push_starting(&mut call.args, open);
                let ghost mid = texts(call.args@);
                push_text(&mut call.args, device_id.as_str());
                match &link {
                    Some(l) => {
                        push_text(&mut call.args, l.as_str());
                    },
                    None => {
                        push_text(&mut call.args, app_id.as_str());
                    },
                }
                assert(texts(call.args@) =~= mid + seq![device_id@, what]);
                push_ios_extras(&mut call.args, reset_db, payload, log_state);
                push_ending(&mut call.args, open);
                assert(texts(call.args@) =~= exe_args(self@) + seq![verb] + starting_args(
                    open@.passthrough,
                ) + seq![device_id@, what] + ios_extras(reset_db, opt_str(payload), log_state)
                    + ending_args(open@.passthrough));
                assert(start_call(self@, reset_db, opt_str(payload), log_state, open@) is Ok);
                assert(call@.args =~= start_call(
                    self@,
                    reset_db,
                    opt_str(payload),
                    log_state,
                    open@,
                )->Ok_0.args);
                Ok(call)
            },
            LaunchableApp::Android { .. } => Ok(call),
        }
    }

    /// The call that starts the app: with the database of experiments reset first if
    /// `reset_db` says so, with the experiments `payload` if there are any, and with the state
    /// written to the log if `log_state` says so.
    pub fn start_app(
        &self,
        reset_db: bool,
        payload: Option<&str>,
        log_state: bool,
        open: &AppOpenArgs,
    ) -> (r: Result<Invocation, CmdError>)
        ensures
            call_view(r) == start_call(self@, reset_db, opt_str(payload), log_state, open@),
    {
        match self {
            LaunchableApp::Android { .. } => self.android_start(reset_db, payload, log_state, open),
            LaunchableApp::Ios { .. } => self.ios_start(reset_db, payload, log_state, open),
        }
    }

    /// The call that restarts the app and has it write its state to the log.
    pub fn log_state(&self) -> (r: Result<Invocation, CmdError>)
        ensures
            call_view(r) == start_call(
                self@,
                false,
                None,
                true,
                OpenArgsView { deeplink: None, passthrough: Seq::empty() },
            ),
    {
        self.start_app(false, None, true, &AppOpenArgs::none())
    }

    /// The call that opens the app and leaves its experiments as they are.
    pub fn open(&self, open: &AppOpenArgs) -> (r: Result<Invocation, CmdError>)
        ensures
            call_view(r) == start_call(self@, false, None, false, open@),
    {
        self.start_app(false, None, false, open)
    }

    /// The call that restarts the app and has it leave every experiment and rollout.
    pub fn unenroll_all(&self) -> (r: Result<Invocation, CmdError>)
        ensures
            call_view(r) == start_call(
                self@,
                false,
                Some(unenroll_payload()),
                true,
                OpenArgsView { deeplink: None, passthrough: Seq::empty() },
            ),
    {
        self.start_app(false, Some("{\"data\":[]}"), true, &AppOpenArgs::none())
    }
}

/// The place of the first `c` in `s` at or after `from`, or the length of `s` where there is
/// none.
pub open spec fn next_at(s: Seq<char>, c: char, from: int) -> int
    decreases s.len() - from,
{
    if from >= s.len() {
        s.len() as int
    } else if s[from] == c {
        from
    } else {
        next_at(s, c, from + 1)
    }
}

/// The directory that a line of the list of group containers names: what follows the first
/// tabulator, if there is one and something follows it.
pub open spec fn group_dir(line: Seq<char>) -> Option<Seq<char>> {
    let tab = next_at(line, '\t', 0);
    if tab + 1 < line.len() {
        Some(line.skip(tab + 1))
    } else {
        None
    }
}

/// The directories that the lines of `s` from `from` on name, line by line.
pub open spec fn group_dirs(s: Seq<char>, from: int) -> Seq<Seq<char>>
    decreases s.len() - from,
    via group_dirs_decreases
{
    if from > s.len() || from < 0 {
        Seq::empty()
    } else {
        let end = next_at(s, '\n', from);
        let here = match group_dir(s.subrange(from, end)) {
            Some(d) => seq![d],
            None => Seq::empty(),
        };
        if end < s.len() {
            here + group_dirs(s, end + 1)
        } else {
            here
        }
    }
}

/// The next line begins behind the end of this one.
#[via_fn]
proof fn group_dirs_decreases(s: Seq<char>, from: int) {
    if 0 <= from <= s.len() {
        lemma_next_at(s, '\n', from);
    }
}

/// The directories that are to be emptied when the iOS app is reset: the data container
/// `data_dir`, unless it is empty, and the group containers that the lines of `groups` name.
pub open spec fn reset_dirs(data_dir: Seq<char>, groups: Seq<char>) -> Seq<Seq<char>> {
    (if data_dir.len() > 0 {
        seq![data_dir]
    } else {
        Seq::empty()
    }) + group_dirs(groups, 0)
}

/// The place of the next `c` lies between `from` and the end, nothing before it is `c`, and
/// it holds `c` unless it is the end.
pub proof fn lemma_next_at(s: Seq<char>, c: char, from: int)
    requires
        0 <= from <= s.len(),
    ensures
        from <= next_at(s, c, from) <= s.len(),
        forall|k: int| from <= k < next_at(s, c, from) ==> s[k] != c,
        next_at(s, c, from) < s.len() ==> s[next_at(s, c, from)] == c,
    decreases s.len() - from,
{
    if from < s.len() && s[from] != c {
        lemma_next_at(s, c, from + 1);
    }
}

/// The place of the first `c` in `chars` at or after `from` and before `to`, or `to`.
fn scan(chars: &Vec<char>, c: char, from: usize, to: usize) -> (r: usize)
    requires
        from <= to <= chars.len(),
    ensures
        from <= r <= to,
        forall|k: int| from <= k < r ==> chars@[k] != c,
        r < to ==> chars@[r as int] == c,
{
    let mut i: usize = from;
    while i < to && chars[i] != c
        invariant
            from <= i <= to <= chars.len(),
            forall|k: int| from <= k < i ==> chars@[k] != c,
        decreases to - i,
    {
        i += 1;
    }
    i
}

/// The place that a scan finds is the place of the next `c`.
pub proof fn lemma_scan_is_next(s: Seq<char>, c: char, from: int, found: int)
    requires
        0 <= from <= found <= s.len(),
        forall|k: int| from <= k < found ==> s[k] != c,
        found < s.len() ==> s[found] == c,
    ensures
        next_at(s, c, from) == found,
    decreases found - from,
{
    if from < found {
        lemma_scan_is_next(s, c, from + 1, found);
    }
}

/// The directories that are to be emptied when the iOS app is reset, given the directory of
/// its data container and the list of its group containers, which names one container in a
/// line, behind a tabulator.
pub fn ios_reset_dirs(data_dir: &str, groups: &str) -> (r: Vec<String>)
    ensures
        texts(r@) == reset_dirs(data_dir@, groups@),
{
    let mut out: Vec<String> = Vec::new();
    assert(texts(out@) =~= Seq::empty());
    if !data_dir.is_empty() {
        push_text(&mut out, data_dir);
    }
    let ghost head = texts(out@);
    assert(head =~= if data_dir@.len() > 0 {
        seq![data_dir@]
    } else {
        Seq::empty()
    });
    let chars = to_chars(groups);
    let n = chars.len();
    let mut from: usize = 0;
    assert(head + group_dirs(groups@, 0) =~= reset_dirs(data_dir@, groups@));
    loop
        invariant
            from <= n,
            n == chars.len(),
            chars@ == groups@,
            texts(out@) + group_dirs(groups@, from as int) == reset_dirs(data_dir@, groups@),
        decreases n - from,
    {
        let end = scan(&chars, '\n', from, n);
        let tab = scan(&chars, '\t', from, end);
        let ghost line = groups@.subrange(from as int, end as int);
        let ghost before = texts(out@);
        proof {
            lemma_scan_is_next(groups@, '\n', from as int, end as int);
            assert forall|k: int| 0 <= k < tab - from implies line[k] != '\t' by {
                assert(line[k] == groups@[from + k]);
            }
            if tab < end {
                assert(line[tab - from] == groups@[tab as int]);
            }
            lemma_scan_is_next(line, '\t', 0, tab - from);
        }
        if tab < end && tab + 1 < end {
            let dir = groups.substring_char(tab + 1, end);
            assert(dir@ =~= line.skip(tab - from + 1));
            push_text(&mut out, dir);
        }
        proof {
            let here = match group_dir(line) {
                Some(d) => seq![d],
                None => Seq::empty(),
            };
            assert(texts(out@) =~= before + here);
            if end < n {
                assert(before + (here + group_dirs(groups@, end + 1)) =~= (before + here)
                    + group_dirs(groups@, end + 1));
            } else {
                assert(before + here =~= texts(out@) + Seq::<Seq<char>>::empty());
            }
        }
        if end >= n {
            assert(texts(out@) =~= reset_dirs(data_dir@, groups@));
            return out;
        }
        from = end + 1;
    }
}

/// A command for an app, as far as it comes down to calls of a tool.
#[derive(Debug)]
pub enum AppCommand {
    /// Hands the list of experiments `payload` to the app and has it applied at once.
    ApplyFile { app: LaunchableApp, payload: String, preserve_nimbus_db: bool },
    /// Enrolls the app into the experiments and rollouts of `payload`.
    Enroll { app: LaunchableApp, payload: String, preserve_nimbus_db: bool, open: AppOpenArgs },
    /// Stops the app.
    Kill { app: LaunchableApp },
    /// Has the app write the state of its experiments to the log.
    LogState { app: LaunchableApp },
    /// Does nothing.
    NoOp,
    /// Opens the app.
    Open { app: LaunchableApp, open: AppOpenArgs },
    /// Puts the app back into the state in which it was installed.
    Reset { app: LaunchableApp },
    /// Has the app leave every experiment and rollout.
    Unenroll { app: LaunchableApp },
}

/// The mathematical value of an [`AppCommand`].
pub enum CommandView {
    ApplyFile { app: AppView, payload: Seq<char>, preserve_nimbus_db: bool },
    Enroll { app: AppView, payload: Seq<char>, preserve_nimbus_db: bool, open: OpenArgsView },
    Kill { app: AppView },
    LogState { app: AppView },
    NoOp,
    Open { app: AppView, open: OpenArgsView },
    Reset { app: AppView },
    Unenroll { app: AppView },
}

impl View for AppCommand {
    type V = CommandView;

    open spec fn view(&self) -> CommandView {
        match self {
            AppCommand::ApplyFile { app, payload, preserve_nimbus_db } => CommandView::ApplyFile {
                app: app@,
                payload: payload@,
                preserve_nimbus_db: *preserve_nimbus_db,
            },
            AppCommand::Enroll { app, payload, preserve_nimbus_db, open } => CommandView::Enroll {
                app: app@,
                payload: payload@,
                preserve_nimbus_db: *preserve_nimbus_db,
                open: open@,
            },
            AppCommand::Kill { app } => CommandView::Kill { app: app@ },
            AppCommand::LogState { app } => CommandView::LogState { app: app@ },
            AppCommand::NoOp => CommandView::NoOp,
            AppCommand::Open { app, open } => CommandView::Open { app: app@, open: open@ },
            AppCommand::Reset { app } => CommandView::Reset { app: app@ },
            AppCommand::Unenroll { app } => CommandView::Unenroll { app: app@ },
        }
    }
}

/// A single call, or the reason why there is none, as a list of calls.
pub open spec fn single(r: Result<InvocationView, CmdError>) -> Result<Seq<InvocationView>, CmdError> {
    match r {
        Ok(c) => Ok(seq![c]),
        Err(e) => Err(e),
    }
}

/// The calls that carry out `cmd`, in the order in which they are to be made, or the reason
/// why it cannot be carried out.
pub open spec fn calls_of(cmd: CommandView) -> Result<Seq<InvocationView>, CmdError> {
    let none = OpenArgsView { deeplink: None, passthrough: Seq::empty() };
    match cmd {
        CommandView::ApplyFile { app, payload, preserve_nimbus_db } => single(
            start_call(app, !preserve_nimbus_db, Some(payload), true, none),
        ),
        CommandView::Enroll { app, payload, preserve_nimbus_db, open } => single(
            start_call(app, !preserve_nimbus_db, Some(payload), true, open),
        ),
        CommandView::Kill { app } => Ok(seq![kill_call(app)]),
        CommandView::LogState { app } => single(start_call(app, false, None, true, none)),
        CommandView::NoOp => Ok(Seq::empty()),
        CommandView::Open { app, open } => single(start_call(app, false, None, false, open)),
        CommandView::Reset { app } => Ok(reset_calls(app)),
        CommandView::Unenroll { app } => single(
            start_call(app, false, Some(unenroll_payload()), true, none),
        ),
    }
}

/// The view of a list of calls or of the reason why there is none.
pub open spec fn calls_view(r: Result<Vec<Invocation>, CmdError>) -> Result<Seq<InvocationView>, CmdError> {
    match r {
        Ok(v) => Ok(call_views(v@)),
        Err(e) => Err(e),
    }
}

/// A single call, or the reason why there is none, as a list of calls.
fn one_call(r: Result<Invocation, CmdError>) -> (out: Result<Vec<Invocation>, CmdError>)
    ensures
        calls_view(out) == single(call_view(r)),
{
    match r {
        Ok(c) => {
            let mut v: Vec<Invocation> = Vec::new();
            v.push(c);
            assert(call_views(v@) =~= seq![c@]);
            Ok(v)
        },
        Err(e) => Err(e),
    }
}

/// The calls that carry out `cmd`, in the order in which they are to be made. The command is
/// done when every call is made and none of the checked ones has failed.
pub fn process_cmd(cmd: &AppCommand) -> (r: Result<Vec<Invocation>, CmdError>)
    ensures
        calls_view(r) == calls_of(cmd@),
{
    match cmd {
        AppCommand::ApplyFile { app, payload, preserve_nimbus_db } => one_call(
            app.start_app(!*preserve_nimbus_db, Some(payload.as_str()), true, &AppOpenArgs::none()),
        ),
        AppCommand::Enroll { app, payload, preserve_nimbus_db, open } => one_call(
            app.start_app(!*preserve_nimbus_db, Some(payload.as_str()), true, open),
        ),
        AppCommand::Kill { app } => one_call(Ok(app.kill_app())),
        AppCommand::LogState { app } => one_call(app.log_state()),
        AppCommand::NoOp => {
            let v: Vec<Invocation> = Vec::new();
            assert(call_views(v@) =~= Seq::empty());
            Ok(v)
        },
        AppCommand::Open { app, open } => one_call(app.open(open)),
        AppCommand::Reset { app } => Ok(app.reset_app()),
        AppCommand::Unenroll { app } => one_call(app.unenroll_all()),
    }
}

} // verus!
