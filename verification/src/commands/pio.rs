//! Build, upload, test and clean: what is checked before the build tool is
//! started, what it is started with, and what is emitted and returned when it ends.
//!
//! The application spawns the process, drains its output and awaits its exit
//! under the timeout. Everything it needs to decide on comes from here: a
//! `BuildLaunch` for a request that passed validation, an `Output` event for each
//! line, a `WaitDecision` for what the timed wait gave, and a `Conclusion` with the
//! last events and the value to return.

use crate::commands::serial::{is_listed, port_names, rejection, PortScan};
use crate::text::{
    char_is_ascii_alphabetic, char_is_ascii_alphanumeric, concat2, concat3, contains_char,
    contains_seq, decimal, find, index_of, is_ascii_alphabetic, is_ascii_alphanumeric, is_blank,
    join, joined, str_contains, str_is_blank, subvec, text_view, to_chars, to_decimal, views,
};
use vstd::prelude::*;

verus! {

/// The time a build tool process is given, in seconds.
pub const PIO_COMMAND_TIMEOUT_SECS: u64 = 600;

/// A notification about one build operation.
#[derive(Debug, Clone)]
pub enum BuildEvent {
    Output { line: String },
    Error { message: String },
    Complete { success: bool, duration_ms: u64 },
    Started { app_name: String, environment: String },
}

/// A build event with its texts as sequences of characters.
pub enum BuildEventView {
    Output { line: Seq<char> },
    Error { message: Seq<char> },
    Complete { success: bool, duration_ms: u64 },
    Started { app_name: Seq<char>, environment: Seq<char> },
}

impl View for BuildEvent {
    type V = BuildEventView;

    open spec fn view(&self) -> BuildEventView {
        match self {
            BuildEvent::Output { line } => BuildEventView::Output { line: line@ },
            BuildEvent::Error { message } => BuildEventView::Error { message: message@ },
            BuildEvent::Complete { success, duration_ms } => BuildEventView::Complete {
                success: *success,
                duration_ms: *duration_ms,
            },
            BuildEvent::Started { app_name, environment } => BuildEventView::Started {
                app_name: app_name@,
                environment: environment@,
            },
        }
    }
}

/// The views of the events of `events`.
pub open spec fn build_event_views(events: Seq<BuildEvent>) -> Seq<BuildEventView> {
    events.map_values(|e: BuildEvent| e@)
}

/// A character an environment name may hold.
pub open spec fn is_environment_char(c: char) -> bool {
    is_ascii_alphanumeric(c) || c == '_' || c == '-'
}

/// Why `name` is no environment name, if it is none.
pub open spec fn environment_name_error(name: Seq<char>) -> Option<Seq<char>> {
    if is_blank(name) {
        Some("Environment name cannot be empty"@)
    } else if vstd::utf8::encode_utf8(name).len() > 64 {
        Some("Environment name too long (max 64 chars)"@)
    } else if !(forall|i: int| 0 <= i < name.len() ==> is_environment_char(#[trigger] name[i])) {
        Some(
            "Environment name '"@ + name
                + "' contains invalid characters. Use only letters, numbers, underscore, hyphen."@,
        )
    } else {
        None
    }
}

/// Accepts a name that is not blank, takes at most 64 bytes, and holds only
/// ASCII letters, digits, `_` and `-`.
pub fn validate_environment_name(name: &str) -> (r: Result<(), String>)
    ensures
        rejection(r) == environment_name_error(name@),
{
    if str_is_blank(name) {
        return Err(String::from_str("Environment name cannot be empty"));
    }
    if name.as_bytes().len() > 64 {
        return Err(String::from_str("Environment name too long (max 64 chars)"));
    }
    let chars = to_chars(name);
    let mut i: usize = 0;
    while i < chars.len()
        invariant
            i <= chars@.len(),
            chars@ == name@,
            !is_blank(name@),
            vstd::utf8::encode_utf8(name@).len() <= 64,
            forall|k: int| 0 <= k < i ==> is_environment_char(#[trigger] chars@[k]),
        decreases chars@.len() - i,
    {
        let c = chars[i];
        if !(char_is_ascii_alphanumeric(c) || c == '_' || c == '-') {
            return Err(
                concat3(
                    "Environment name '",
                    name,
                    "' contains invalid characters. Use only letters, numbers, underscore, hyphen.",
                ),
            );
        }
        i += 1;
    }
    Ok(())
}

/// What follows the `-D` of a flag.
pub open spec fn flag_body(flag: Seq<char>) -> Seq<char> {
    flag.subrange(2, flag.len() as int)
}

/// The name a flag defines: its body up to the first `=`.
pub open spec fn flag_name(flag: Seq<char>) -> Seq<char> {
    let body = flag_body(flag);
    let eq = index_of(body, seq!['=']);
    if eq < 0 {
        body
    } else {
        body.subrange(0, eq)
    }
}

/// The value a flag gives its name: what follows the first `=`, if there is one.
pub open spec fn flag_value(flag: Seq<char>) -> Option<Seq<char>> {
    let body = flag_body(flag);
    let eq = index_of(body, seq!['=']);
    if eq < 0 {
        None
    } else {
        Some(body.subrange(eq + 1, body.len() as int))
    }
}

/// A letter or `_`, then letters, digits and `_`.
pub open spec fn is_identifier(name: Seq<char>) -> bool {
    &&& name.len() > 0
    &&& is_ascii_alphabetic(name[0]) || name[0] == '_'
    &&& forall|i: int| 1 <= i < name.len() ==> is_ascii_alphanumeric(#[trigger] name[i]) || name[i] == '_'
}

/// A character with a meaning to a shell.
pub open spec fn is_shell_meta(c: char) -> bool {
    c == '`' || c == '$' || c == ';' || c == '|' || c == '&' || c == '<' || c == '>'
}

/// A control character: U+0000 to U+001F, and U+007F to U+009F.
pub open spec fn is_control(c: char) -> bool {
    let n = c as u32;
    n <= 0x1F || 0x7F <= n <= 0x9F
}

/// `value` holds a control character.
pub open spec fn has_control(value: Seq<char>) -> bool {
    exists|i: int| 0 <= i < value.len() && is_control(#[trigger] value[i])
}

/// `value` holds a character with a meaning to a shell.
pub open spec fn has_shell_meta(value: Seq<char>) -> bool {
    exists|i: int| 0 <= i < value.len() && is_shell_meta(#[trigger] value[i])
}

/// Why `flag` is no definition flag that may reach the build tool, if it is none.
pub open spec fn build_flag_error(flag: Seq<char>) -> Option<Seq<char>> {
    if !seq!['-', 'D'].is_prefix_of(flag) {
        Some("Invalid build flag (expected -D...): "@ + flag)
    } else if flag_name(flag).len() == 0 {
        Some("Invalid build flag (missing name): "@ + flag)
    } else if !is_identifier(flag_name(flag)) {
        Some("Invalid build flag name: "@ + flag)
    } else {
        match flag_value(flag) {
            None => None,
            Some(value) => if has_control(value) {
                Some("Build flag contains invalid characters: "@ + flag)
            } else if has_shell_meta(value) {
                Some("Build flag contains forbidden characters: "@ + flag)
            } else {
                None
            },
        }
    }
}

/// The complaint about the first flag that is refused, if one is.
pub open spec fn build_flags_error(flags: Seq<Seq<char>>) -> Option<Seq<char>>
    decreases flags.len(),
{
    if flags.len() == 0 {
        None
    } else if build_flag_error(flags[0]) is Some {
        build_flag_error(flags[0])
    } else {
        build_flags_error(flags.drop_first())
    }
}

fn check_identifier(name: &Vec<char>) -> (b: bool)
    ensures
        b == is_identifier(name@),
{
    if name.len() == 0 {
        return false;
    }
    let first = name[0];
    if !(char_is_ascii_alphabetic(first) || first == '_') {
        return false;
    }
    let mut i: usize = 1;
    while i < name.len()
        invariant
            1 <= i <= name@.len(),
            forall|k: int| 1 <= k < i ==> is_ascii_alphanumeric(#[trigger] name@[k]) || name@[k] == '_',
        decreases name@.len() - i,
    {
        let c = name[i];
        if !(char_is_ascii_alphanumeric(c) || c == '_') {
            return false;
        }
        i += 1;
    }
    true
}

fn check_control(value: &Vec<char>) -> (b: bool)
    ensures
        b == has_control(value@),
{
    let mut i: usize = 0;
    while i < value.len()
        invariant
            i <= value@.len(),
            forall|k: int| 0 <= k < i ==> !is_control(#[trigger] value@[k]),
        decreases value@.len() - i,
    {
        let n: u32 = value[i] as u32;
        if n <= 0x1F || (0x7F <= n && n <= 0x9F) {
            return true;
        }
        i += 1;
    }
    false
}

fn check_shell_meta(value: &Vec<char>) -> (b: bool)
    ensures
        b == has_shell_meta(value@),
{
    let mut i: usize = 0;
    while i < value.len()
        invariant
            i <= value@.len(),
            forall|k: int| 0 <= k < i ==> !is_shell_meta(#[trigger] value@[k]),
        decreases value@.len() - i,
    {
        let c = value[i];
        if c == '`' || c == '$' || c == ';' || c == '|' || c == '&' || c == '<' || c == '>' {
            return true;
        }
        i += 1;
    }
    false
}

/// Checks one flag: `-D`, an identifier, and after `=` a value without control
/// characters and without characters that a shell would act on.
pub fn validate_build_flag(flag: &str) -> (r: Result<(), String>)
    ensures
        rejection(r) == build_flag_error(flag@),
{
    let chars = to_chars(flag);
    let n = chars.len();
    if !(n >= 2 && chars[0] == '-' && chars[1] == 'D') {
        proof {
            if seq!['-', 'D'].is_prefix_of(flag@) {
                assert(flag@.subrange(0, 2)[0] == '-');
                assert(flag@.subrange(0, 2)[1] == 'D');
            }
        }
        return Err(concat2("Invalid build flag (expected -D...): ", flag));
    }
    assert(flag@.subrange(0, 2) =~= seq!['-', 'D']);
    let body = subvec(&chars, 2, n);
    let mut eq_sign: Vec<char> = Vec::new();
    eq_sign.push('=');
    assert(eq_sign@ =~= seq!['=']);
    let at = find(&body, &eq_sign);
    let name = match at {
        Some(i) => subvec(&body, 0, i),
        None => subvec(&body, 0, body.len()),
    };
    assert(name@ =~= flag_name(flag@));
    if name.len() == 0 {
        return Err(concat2("Invalid build flag (missing name): ", flag));
    }
    if !check_identifier(&name) {
        return Err(concat2("Invalid build flag name: ", flag));
    }
    match at {
        None => Ok(()),
        Some(i) => {
            let value = subvec(&body, i + 1, body.len());
            if check_control(&value) {
                return Err(concat2("Build flag contains invalid characters: ", flag));
            }
            if check_shell_meta(&value) {
                return Err(concat2("Build flag contains forbidden characters: ", flag));
            }
            Ok(())
        },
    }
}

/// Checks the flags in order and stops at the first that is refused.
pub fn validate_build_flags(build_flags: &Vec<String>) -> (r: Result<(), String>)
    ensures
        rejection(r) == build_flags_error(views(build_flags@)),
{
    let ghost all = views(build_flags@);
    assert(all.subrange(0, all.len() as int) =~= all);
    let mut i: usize = 0;
    while i < build_flags.len()
        invariant
            i <= build_flags@.len(),
            all == views(build_flags@),
            build_flags_error(all) == build_flags_error(all.subrange(i as int, all.len() as int)),
        decreases build_flags@.len() - i,
    {
        proof {
            let rest = all.subrange(i as int, all.len() as int);
            assert(rest[0] == build_flags@[i as int]@);
            assert(rest.drop_first() =~= all.subrange(i as int + 1, all.len() as int));
        }
        match validate_build_flag(build_flags[i].as_str()) {
            Err(e) => {
                return Err(e);
            },
            Ok(_) => {},
        }
        i += 1;
    }
    Ok(())
}

/// Why `port` is no port to upload through, if it is none.
pub open spec fn upload_port_error(port: Seq<char>, scan: PortScan) -> Option<Seq<char>> {
    if is_blank(port) {
        Some("Upload port cannot be empty"@)
    } else if port.contains('\0') || port.contains('\n') || port.contains('\r') || contains_seq(
        port,
        ".."@,
    ) {
        Some("Upload port contains invalid characters"@)
    } else {
        match scan {
            Err(e) => Some("Failed to list serial ports: "@ + e@),
            Ok(ports) => if port_names(ports@).contains(port) {
                None
            } else {
                Some(
                    "Invalid upload port: "@ + port
                        + ". Please refresh ports and select a valid device."@,
                )
            },
        }
    }
}

/// Accepts an upload port only if it is well-formed and among the devices of `scan`.
pub fn validate_upload_port(port: &str, scan: &PortScan) -> (r: Result<(), String>)
    ensures
        rejection(r) == upload_port_error(port@, *scan),
{
    if str_is_blank(port) {
        return Err(String::from_str("Upload port cannot be empty"));
    }
    let chars = to_chars(port);
    if contains_char(&chars, '\0') || contains_char(&chars, '\n') || contains_char(&chars, '\r')
        || str_contains(port, "..") {
        return Err(String::from_str("Upload port contains invalid characters"));
    }
    match scan {
        Err(e) => Err(concat2("Failed to list serial ports: ", e.as_str())),
        Ok(ports) => {
            if is_listed(ports, port) {
                Ok(())
            } else {
                Err(
                    concat3(
                        "Invalid upload port: ",
                        port,
                        ". Please refresh ports and select a valid device.",
                    ),
                )
            }
        },
    }
}

/// Which of the four operations is run.
#[derive(Debug, Clone, Copy, PartialEq, Eq, Structural)]
pub enum OperationKind {
    Build,
    Upload,
    Test,
    Clean,
}

impl OperationKind {
    /// The operation as its messages name it.
    pub open spec fn label(self) -> Seq<char> {
        match self {
            OperationKind::Build => "Build"@,
            OperationKind::Upload => "Upload"@,
            OperationKind::Test => "Tests"@,
            OperationKind::Clean => "Clean"@,
        }
    }

    /// The operation as its messages name it.
    pub fn label_text(self) -> (r: &'static str)
        ensures
            r@ == self.label(),
    {
        match self {
            OperationKind::Build => "Build",
            OperationKind::Upload => "Upload",
            OperationKind::Test => "Tests",
            OperationKind::Clean => "Clean",
        }
    }
}

/// What the build tool is started with: its arguments, and the variables added
/// to its environment.
#[derive(Debug, Clone)]
pub struct CommandPlan {
    pub args: Vec<String>,
    pub env: Vec<(String, String)>,
}

/// A plan with its texts as sequences of characters.
pub struct CommandPlanView {
    pub args: Seq<Seq<char>>,
    pub env: Seq<(Seq<char>, Seq<char>)>,
}

/// The variables of `env`, names and values as sequences of characters.
pub open spec fn env_views(env: Seq<(String, String)>) -> Seq<(Seq<char>, Seq<char>)> {
    env.map_values(|p: (String, String)| (p.0@, p.1@))
}

impl View for CommandPlan {
    type V = CommandPlanView;

    open spec fn view(&self) -> CommandPlanView {
        CommandPlanView { args: views(self.args@), env: env_views(self.env@) }
    }
}

/// A request that passed validation: the event that announces it and what to
/// start the build tool with.
#[derive(Debug, Clone)]
pub struct BuildLaunch {
    pub kind: OperationKind,
    pub started: BuildEvent,
    pub plan: CommandPlan,
}

/// A launch with its texts as sequences of characters.
pub struct BuildLaunchView {
    pub kind: OperationKind,
    pub started: BuildEventView,
    pub plan: CommandPlanView,
}

impl View for BuildLaunch {
    type V = BuildLaunchView;

    open spec fn view(&self) -> BuildLaunchView {
        BuildLaunchView { kind: self.kind, started: self.started@, plan: self.plan@ }
    }
}

/// The variable that makes the build tool write its output unbuffered.
pub open spec fn base_env() -> Seq<(Seq<char>, Seq<char>)> {
    seq![("PYTHONUNBUFFERED"@, "1"@)]
}

/// The variable that carries the flags, separated by spaces, if there are any.
pub open spec fn flags_env(flags: Seq<Seq<char>>) -> Seq<(Seq<char>, Seq<char>)> {
    if flags.len() == 0 {
        Seq::empty()
    } else {
        seq![("PLATFORMIO_BUILD_FLAGS"@, joined(flags, " "@))]
    }
}

/// The variable that carries the upload port, if one is given.
pub open spec fn port_env(port: Option<Seq<char>>) -> Seq<(Seq<char>, Seq<char>)> {
    match port {
        Some(p) => seq![("PLATFORMIO_UPLOAD_PORT"@, p)],
        None => Seq::empty(),
    }
}

/// What a build is started with.
pub open spec fn build_plan(environment: Seq<char>, flags: Seq<Seq<char>>) -> CommandPlanView {
    CommandPlanView { args: seq!["run"@, "-e"@, environment], env: base_env() + flags_env(flags) }
}

/// What an upload is started with.
pub open spec fn upload_plan(
    environment: Seq<char>,
    flags: Seq<Seq<char>>,
    port: Option<Seq<char>>,
) -> CommandPlanView {
    CommandPlanView {
        args: seq!["run"@, "-e"@, environment, "-t"@, "upload"@],
        env: base_env() + flags_env(flags) + port_env(port),
    }
}

/// What a test run is started with.
pub open spec fn test_plan(environment: Seq<char>) -> CommandPlanView {
    CommandPlanView { args: seq!["test"@, "-e"@, environment], env: base_env() }
}

/// What a clean is started with: for one environment, or for all.
pub open spec fn clean_plan(environment: Option<Seq<char>>) -> CommandPlanView {
    CommandPlanView {
        args: match environment {
            Some(e) => seq!["run"@, "-t"@, "clean"@, "-e"@, e],
            None => seq!["run"@, "-t"@, "clean"@],
        },
        env: base_env(),
    }
}

/// The event that announces an operation.
pub open spec fn started_event(app_name: Seq<char>, environment: Seq<char>) -> BuildEventView {
    BuildEventView::Started { app_name, environment }
}

/// The first of two complaints.
pub open spec fn first_of(a: Option<Seq<char>>, b: Option<Seq<char>>) -> Option<Seq<char>> {
    if a is Some {
        a
    } else {
        b
    }
}

fn base_env_vars() -> (env: Vec<(String, String)>)
    ensures
        env_views(env@) == base_env(),
{
    let mut env: Vec<(String, String)> = Vec::new();
    env.push((String::from_str("PYTHONUNBUFFERED"), String::from_str("1")));
    assert(env_views(env@) =~= base_env());
    env
}

fn push_flags_env(env: &mut Vec<(String, String)>, build_flags: &Vec<String>)
    ensures
        env_views(final(env)@) == env_views(old(env)@) + flags_env(views(build_flags@)),
{
    if build_flags.len() > 0 {
        env.push((String::from_str("PLATFORMIO_BUILD_FLAGS"), join(build_flags, " ")));
    }
    assert(env_views(env@) =~= env_views(old(env)@) + flags_env(views(build_flags@)));
}

fn args_of(first: &str, second: &str, third: &str) -> (args: Vec<String>)
    ensures
        views(args@) == seq![first@, second@, third@],
{
    let mut args: Vec<String> = Vec::new();
    args.push(String::from_str(first));
    args.push(String::from_str(second));
    args.push(String::from_str(third));
    assert(views(args@) =~= seq![first@, second@, third@]);
    args
}

fn push_args(args: &mut Vec<String>, first: &str, second: &str)
    ensures
        views(final(args)@) == views(old(args)@) + seq![first@, second@],
{
    args.push(String::from_str(first));
    args.push(String::from_str(second));
    assert(views(args@) =~= views(old(args)@) + seq![first@, second@]);
}

/// Checks a build request and says what to start.
pub fn run_build(app_name: String, environment: String, build_flags: Vec<String>) -> (r: Result<
    BuildLaunch,
    String,
>)
    ensures
        match r {
            Ok(launch) => environment_name_error(environment@) is None && build_flags_error(
                views(build_flags@),
            ) is None && launch@ == (BuildLaunchView {
                kind: OperationKind::Build,
                started: started_event(app_name@, environment@),
                plan: build_plan(environment@, views(build_flags@)),
            }),
            Err(e) => Some(e@) == first_of(
                environment_name_error(environment@),
                build_flags_error(views(build_flags@)),
            ),
        },
{
    match validate_environment_name(environment.as_str()) {
        Err(e) => {
            return Err(e);
        },
        Ok(_) => {},
    }
    match validate_build_flags(&build_flags) {
        Err(e) => {
            return Err(e);
        },
        Ok(_) => {},
    }
    let args = args_of("run", "-e", environment.as_str());
    let mut env = base_env_vars();
    push_flags_env(&mut env, &build_flags);
    Ok(
        BuildLaunch {
            kind: OperationKind::Build,
            started: BuildEvent::Started { app_name, environment },
            plan: CommandPlan { args, env },
        },
    )
}

/// The complaint about the upload port, where one is given.
pub open spec fn optional_port_error(port: Option<String>, scan: PortScan) -> Option<Seq<char>> {
    match port {
        Some(p) => upload_port_error(p@, scan),
        None => None,
    }
}

/// Checks an upload request, the port against `scan`, and says what to start.
pub fn run_upload(
    app_name: String,
    environment: String,
    build_flags: Vec<String>,
    upload_port: Option<String>,
    scan: &PortScan,
) -> (r: Result<BuildLaunch, String>)
    ensures
        match r {
            Ok(launch) => environment_name_error(environment@) is None && build_flags_error(
                views(build_flags@),
            ) is None && optional_port_error(upload_port, *scan) is None && launch@
                == (BuildLaunchView {
                kind: OperationKind::Upload,
                started: started_event(app_name@, environment@),
                plan: upload_plan(environment@, views(build_flags@), text_view(upload_port)),
            }),
            Err(e) => Some(e@) == first_of(
                environment_name_error(environment@),
                first_of(
                    build_flags_error(views(build_flags@)),
                    optional_port_error(upload_port, *scan),
                ),
            ),
        },
{
    match validate_environment_name(environment.as_str()) {
        Err(e) => {
            return Err(e);
        },
        Ok(_) => {},
    }
    match validate_build_flags(&build_flags) {
        Err(e) => {
            return Err(e);
        },
        Ok(_) => {},
    }
    match &upload_port {
        Some(port) => {
            match validate_upload_port(port.as_str(), scan) {
                Err(e) => {
                    return Err(e);
                },
                Ok(_) => {},
            }
        },
        None => {},
    }
    let mut args = args_of("run", "-e", environment.as_str());
    push_args(&mut args, "-t", "upload");
    let mut env = base_env_vars();
    push_flags_env(&mut env, &build_flags);
    let ghost before = env@;
    match upload_port {
        Some(port) => {
            env.push((String::from_str("PLATFORMIO_UPLOAD_PORT"), port));
        },
        None => {},
    }
    assert(env_views(env@) =~= env_views(before) + port_env(text_view(upload_port)));
    assert(views(args@) =~= seq!["run"@, "-e"@, environment@, "-t"@, "upload"@]);
    Ok(
        BuildLaunch {
            kind: OperationKind::Upload,
            started: BuildEvent::Started { app_name, environment },
            plan: CommandPlan { args, env },
        },
    )
}

/// Checks a test request and says what to start.
pub fn run_tests(app_name: String, environment: String) -> (r: Result<BuildLaunch, String>)
    ensures
        match r {
            Ok(launch) => environment_name_error(environment@) is None && launch@
                == (BuildLaunchView {
                kind: OperationKind::Test,
                started: started_event(app_name@, environment@),
                plan: test_plan(environment@),
            }),
            Err(e) => Some(e@) == environment_name_error(environment@),
        },
{
    match validate_environment_name(environment.as_str()) {
        Err(e) => {
            return Err(e);
        },
        Ok(_) => {},
    }
    let args = args_of("test", "-e", environment.as_str());
    let env = base_env_vars();
    Ok(
        BuildLaunch {
            kind: OperationKind::Test,
            started: BuildEvent::Started { app_name, environment },
            plan: CommandPlan { args, env },
        },
    )
}

/// The complaint about the environment, where one is given.
pub open spec fn optional_environment_error(environment: Option<String>) -> Option<Seq<char>> {
    match environment {
        Some(e) => environment_name_error(e@),
        None => None,
    }
}

/// The environment as the event shows it: empty where none is given.
pub open spec fn environment_or_empty(environment: Option<String>) -> Seq<char> {
    match environment {
        Some(e) => e@,
        None => Seq::empty(),
    }
}

/// Checks a clean request, for one environment or for all, and says what to start.
pub fn clean_build(app_name: String, environment: Option<String>) -> (r: Result<
    BuildLaunch,
    String,
>)
    ensures
        match r {
            Ok(launch) => optional_environment_error(environment) is None && launch@
                == (BuildLaunchView {
                kind: OperationKind::Clean,
                started: started_event(app_name@, environment_or_empty(environment)),
                plan: clean_plan(text_view(environment)),
            }),
            Err(e) => Some(e@) == optional_environment_error(environment),
        },
{
    match &environment {
        Some(name) => {
            match validate_environment_name(name.as_str()) {
                Err(e) => {
                    return Err(e);
                },
                Ok(_) => {},
            }
        },
        None => {},
    }
    let mut args = args_of("run", "-t", "clean");
    let shown = match &environment {
        Some(name) => {
            push_args(&mut args, "-e", name.as_str());
            name.clone()
        },
        None => String::new(),
    };
    assert(views(args@) =~= clean_plan(text_view(environment)).args);
    let env = base_env_vars();
    Ok(
        BuildLaunch {
            kind: OperationKind::Clean,
            started: BuildEvent::Started { app_name, environment: shown },
            plan: CommandPlan { args, env },
        },
    )
}

/// The event for one line that the build tool wrote, on either stream.
pub fn output_event(line: String) -> (e: BuildEvent)
    ensures
        e@ == (BuildEventView::Output { line: line@ }),
{
    BuildEvent::Output { line }
}

/// What awaiting the process under the timeout gave: it exited, with success or
/// not; the wait itself failed; or the time ran out.
#[derive(Debug)]
pub enum Waited {
    Exited(bool),
    Failed(String),
    Elapsed,
}

/// Whether the process is to be killed and reaped, and what the wait amounts to:
/// the exit's success, nothing where the time ran out, or the failure to return.
#[derive(Debug)]
pub struct WaitDecision {
    pub kill: bool,
    pub status: Result<Option<bool>, String>,
}

/// What the wait amounts to.
pub open spec fn wait_status(waited: Waited) -> Result<Option<bool>, Seq<char>> {
    match waited {
        Waited::Exited(success) => Ok(Some(success)),
        Waited::Failed(e) => Err("Failed to wait for PlatformIO: "@ + e@),
        Waited::Elapsed => Ok(None),
    }
}

/// A wait's status with the failure's text as a sequence of characters.
pub open spec fn status_view(status: Result<Option<bool>, String>) -> Result<
    Option<bool>,
    Seq<char>,
> {
    match status {
        Ok(s) => Ok(s),
        Err(e) => Err(e@),
    }
}

/// The process is to be killed: its time ran out.
pub open spec fn must_kill(waited: Waited) -> bool {
    waited is Elapsed
}

/// Decides on what the timed wait gave. Only a process whose time ran out is killed.
pub fn wait_with_timeout(waited: Waited) -> (d: WaitDecision)
    ensures
        d.kill == must_kill(waited),
        status_view(d.status) == wait_status(waited),
{
    match waited {
        Waited::Exited(success) => WaitDecision { kill: false, status: Ok(Some(success)) },
        Waited::Failed(e) => WaitDecision {
            kill: false,
            status: Err(concat2("Failed to wait for PlatformIO: ", e.as_str())),
        },
        Waited::Elapsed => WaitDecision { kill: true, status: Ok(None) },
    }
}

/// The last events of an operation and the value it returns.
#[derive(Debug)]
pub struct Conclusion {
    pub events: Vec<BuildEvent>,
    pub result: Result<bool, String>,
}

/// A conclusion with its texts as sequences of characters.
pub struct ConclusionView {
    pub events: Seq<BuildEventView>,
    pub result: Result<bool, Seq<char>>,
}

impl View for Conclusion {
    type V = ConclusionView;

    open spec fn view(&self) -> ConclusionView {
        ConclusionView {
            events: build_event_views(self.events@),
            result: match self.result {
                Ok(b) => Ok(b),
                Err(e) => Err(e@),
            },
        }
    }
}

/// What is said of an operation that was killed for running too long.
pub open spec fn timeout_message(kind: OperationKind) -> Seq<char> {
    kind.label() + " timed out after "@ + decimal(PIO_COMMAND_TIMEOUT_SECS as nat) + " seconds"@
}

/// How an operation ends whose process was awaited: an exit completes it with
/// the exit's success, which is also returned; a timeout is reported as an error,
/// completes it without success, and fails the call.
pub open spec fn concluded(kind: OperationKind, status: Option<bool>, duration_ms: u64) -> ConclusionView {
    match status {
        Some(success) => ConclusionView {
            events: seq![BuildEventView::Complete { success, duration_ms }],
            result: Ok(success),
        },
        None => ConclusionView {
            events: seq![
                BuildEventView::Error { message: timeout_message(kind) },
                BuildEventView::Complete { success: false, duration_ms },
            ],
            result: Err(timeout_message(kind)),
        },
    }
}

/// How an operation ends whose process could not be started: the call fails; a
/// clean still completes, without success, the others emit nothing more.
pub open spec fn not_started(kind: OperationKind, cause: Seq<char>, duration_ms: u64) -> ConclusionView {
    ConclusionView {
        events: if kind == OperationKind::Clean {
            seq![BuildEventView::Complete { success: false, duration_ms }]
        } else {
            Seq::empty()
        },
        result: Err("Failed to start PlatformIO: "@ + cause),
    }
}

fn timeout_text(kind: OperationKind) -> (r: String)
    ensures
        r@ == timeout_message(kind),
{
    let mut r = String::from_str(kind.label_text());
    r.append(" timed out after ");
    let secs = to_decimal(PIO_COMMAND_TIMEOUT_SECS);
    r.append(secs.as_str());
    r.append(" seconds");
    r
}

/// Ends an operation whose process was awaited, `duration_ms` after it began.
/// `status` is the exit's success, or nothing where the time ran out.
pub fn conclude(kind: OperationKind, status: Option<bool>, duration_ms: u64) -> (c: Conclusion)
    ensures
        c@ == concluded(kind, status, duration_ms),
{
    let mut events: Vec<BuildEvent> = Vec::new();
    match status {
        Some(success) => {
            events.push(BuildEvent::Complete { success, duration_ms });
            assert(build_event_views(events@) =~= concluded(kind, status, duration_ms).events);
            Conclusion { events, result: Ok(success) }
        },
        None => {
            events.push(BuildEvent::Error { message: timeout_text(kind) });
            events.push(BuildEvent::Complete { success: false, duration_ms });
            assert(build_event_views(events@) =~= concluded(kind, status, duration_ms).events);
            Conclusion { events, result: Err(timeout_text(kind)) }
        },
    }
}

/// Ends an operation whose process could not be started; `cause` is the error's text.
pub fn spawn_failed(kind: OperationKind, cause: &str, duration_ms: u64) -> (c: Conclusion)
    ensures
        c@ == not_started(kind, cause@, duration_ms),
{
    let mut events: Vec<BuildEvent> = Vec::new();
    match kind {
        OperationKind::Clean => {
            events.push(BuildEvent::Complete { success: false, duration_ms });
        },
        _ => {},
    }
    assert(build_event_views(events@) =~= not_started(kind, cause@, duration_ms).events);
    Conclusion { events, result: Err(concat2("Failed to start PlatformIO: ", cause)) }
}

/// An operation that ran past its time is killed; it ends with an error event and
/// then exactly one `Complete`, without success, and the call fails.
pub proof fn lemma_timeout_ends_in_failure(kind: OperationKind, duration_ms: u64)
    ensures
        must_kill(Waited::Elapsed),
        wait_status(Waited::Elapsed) == Ok::<Option<bool>, Seq<char>>(None),
        concluded(kind, None, duration_ms).events.len() == 2,
        concluded(kind, None, duration_ms).events[0] is Error,
        concluded(kind, None, duration_ms).events[1] == (BuildEventView::Complete {
            success: false,
            duration_ms,
        }),
        concluded(kind, None, duration_ms).result is Err,
{
}

/// An operation whose process was awaited ends with exactly one `Complete`, its
/// last event, which says what the call returns; the call returns `Ok(true)` only
/// after an exit with success.
pub proof fn lemma_completes_once(kind: OperationKind, status: Option<bool>, duration_ms: u64)
    ensures
        ({
            let c = concluded(kind, status, duration_ms);
            &&& c.events.len() > 0
            &&& c.events.last() == (BuildEventView::Complete {
                success: status == Some(true),
                duration_ms,
            })
            &&& forall|i: int| 0 <= i < c.events.len() - 1 ==> !((#[trigger] c.events[i]) is Complete)
            &&& c.result == Ok::<bool, Seq<char>>(true) <==> status == Some(true)
            &&& c.result is Ok <==> status is Some
        }),
{
}

/// Flags that pass validation reach the process's environment as they are: the
/// one variable that carries them holds them in order, separated by single
/// spaces, and a single flag stands there unchanged.
pub proof fn lemma_flags_reach_environment(environment: Seq<char>, flags: Seq<Seq<char>>)
    requires
        flags.len() > 0,
    ensures
        build_plan(environment, flags).env.contains(("PLATFORMIO_BUILD_FLAGS"@, joined(flags, " "@))),
        upload_plan(environment, flags, None).env.contains(
            ("PLATFORMIO_BUILD_FLAGS"@, joined(flags, " "@)),
        ),
        flags.len() == 1 ==> joined(flags, " "@) == flags[0],
{
    let var = ("PLATFORMIO_BUILD_FLAGS"@, joined(flags, " "@));
    assert(build_plan(environment, flags).env[1] == var);
    assert(upload_plan(environment, flags, None).env[1] == var);
}

/// A name is accepted exactly if it has one to 64 characters, each an ASCII
/// letter, a digit, `_` or `-`.
pub proof fn lemma_environment_name_accepted(name: Seq<char>)
    ensures
        environment_name_error(name) is None <==> 0 < name.len() <= 64 && forall|i: int|
            0 <= i < name.len() ==> is_environment_char(#[trigger] name[i]),
{
    crate::text::lemma_trimmed(name);
    if forall|i: int| 0 <= i < name.len() ==> is_environment_char(#[trigger] name[i]) {
        assert(vstd::utf8::is_ascii_chars(name)) by {
            assert forall|i: int| 0 <= i < name.len() implies '\0' <= #[trigger] name[i]
                <= '\u{7f}' by {
                assert(is_environment_char(name[i]));
            }
        }
        vstd::utf8::is_ascii_chars_encode_utf8(name);
        if name.len() > 0 {
            assert(is_environment_char(name[0]));
            assert(!crate::text::is_whitespace(name[0]));
        }
    }
}

/// An upload through a port that is not among the enumerated devices is refused
/// before anything is started, with a message that names the port.
pub proof fn lemma_unlisted_upload_port_rejected(
    port: Seq<char>,
    ports: Vec<crate::commands::serial::DetectedPort>,
)
    requires
        !port_names(ports@).contains(port),
    ensures
        upload_port_error(port, Ok(ports)) is Some,
        !is_blank(port) && !port.contains('\0') && !port.contains('\n') && !port.contains('\r')
            && !contains_seq(port, ".."@) ==> upload_port_error(port, Ok(ports)) == Some(
            "Invalid upload port: "@ + port + ". Please refresh ports and select a valid device."@,
        ),
{
}

/// A flag whose value holds a character that a shell would act on is refused,
/// and with it the whole request: no launch is made of it.
pub proof fn lemma_shell_meta_refused(flag: Seq<char>, flags: Seq<Seq<char>>, i: int)
    requires
        0 <= i < flags.len(),
        flags[i] == flag,
        flag_value(flag) matches Some(value) && has_shell_meta(value),
    ensures
        build_flag_error(flag) is Some,
        build_flags_error(flags) is Some,
    decreases flags.len(),
{
    if i > 0 {
        if build_flag_error(flags[0]) is None {
            lemma_shell_meta_refused(flag, flags.drop_first(), i - 1);
        }
    }
}

/// What is reported of the build tool: its version, which is what it wrote
/// without the whitespace around it, and where it is.
pub open spec fn version_info(written: Seq<char>, pio_path: Seq<char>) -> Map<Seq<char>, Seq<char>> {
    map!["version"@ => crate::text::trimmed(written), "path"@ => pio_path]
}

/// `info` with its values as sequences of characters.
pub open spec fn text_values(info: Map<Seq<char>, String>) -> Map<Seq<char>, Seq<char>> {
    Map::new(|k: Seq<char>| info.contains_key(k), |k: Seq<char>| info[k]@)
}

/// The version information, from the text that the build tool wrote when asked
/// for its version.
pub fn version_info_of(written: &str, pio_path: &str) -> (info: crate::table::StringMap<String>)
    ensures
        info.wf(),
        text_values(info@) == version_info(written@, pio_path@),
{
    let version = String::from_str(crate::text::trim(written));
    let mut info: crate::table::StringMap<String> = crate::table::StringMap::new();
    info.insert(String::from_str("version"), version);
    info.insert(String::from_str("path"), String::from_str(pio_path));
    assert(text_values(info@) =~= version_info(written@, pio_path@));
    info
}

/// Gets the build tool's version information from the bytes that it wrote when
/// asked for its version, decoded as UTF-8 with U+FFFD in the place of what is
/// none.
pub fn get_pio_version(stdout: &Vec<u8>, pio_path: &str) -> (info: crate::table::StringMap<String>)
    ensures
        info.wf(),
        text_values(info@) == version_info(crate::text::utf8_lossy(stdout@), pio_path@),
{
    let written = crate::text::decode_lossy(stdout);
    version_info_of(written.as_str(), pio_path)
}

/// A flag whose value holds a control character is refused, and with it the
/// whole request.
pub proof fn lemma_control_refused(flag: Seq<char>, flags: Seq<Seq<char>>, i: int)
    requires
        0 <= i < flags.len(),
        flags[i] == flag,
        flag_value(flag) matches Some(value) && has_control(value),
    ensures
        build_flag_error(flag) is Some,
        build_flags_error(flags) is Some,
    decreases flags.len(),
{
    if i > 0 {
        if build_flag_error(flags[0]) is None {
            lemma_control_refused(flag, flags.drop_first(), i - 1);
        }
    }
}

} // verus!
