//! The daemon service commands: which operation, at which scope, a command
//! asks for; and the pieces of the Windows service support that are plain
//! text: the configuration directory, the elevated relaunch and the status
//! report.

use vstd::prelude::*;
use vstd::string::StrSliceExecFns;
use crate::text::{owned, push_str, starts_with, str_eq, string_of, trimmed, trim};
use crate::paths::{is_verbatim, joined, path_join, plain_name};
use crate::pattern::replace_all;

verus! {

/// Where the daemon service is installed: for the user or system-wide.
#[derive(Clone, Copy, Debug, PartialEq, Eq, Structural)]
pub enum ServiceScope {
    User,
    System,
}

/// The scope a text names: `user` or `system`.
pub open spec fn scope_named(s: Seq<char>) -> Option<ServiceScope> {
    if s == "user"@ {
        Some(ServiceScope::User)
    } else if s == "system"@ {
        Some(ServiceScope::System)
    } else {
        None
    }
}

/// Reads a scope name (see `scope_named`).
pub fn parse_scope(s: &str) -> (r: Option<ServiceScope>)
    ensures
        r == scope_named(s@),
{
    if str_eq(s, "user") {
        Some(ServiceScope::User)
    } else if str_eq(s, "system") {
        Some(ServiceScope::System)
    } else {
        None
    }
}

/// A service command as given on the command line.
pub enum ServiceCommands {
    Install { scope: Option<String> },
    Start { scope: Option<String> },
    Stop { scope: Option<String> },
    Restart { scope: Option<String> },
    Status { scope: Option<String> },
    Uninstall { scope: Option<String> },
    Logs { lines: usize, follow: bool, scope: Option<String> },
    SetConfigDir { path: String },
}

/// The operation a command comes to.
pub enum ServiceAction {
    Install(ServiceScope),
    Start(ServiceScope),
    Stop(ServiceScope),
    Restart(ServiceScope),
    Status(Option<ServiceScope>),
    Uninstall(ServiceScope),
    Logs(ServiceScope, usize, bool),
    SetConfigDir(String),
}

/// A scope given on the command line that names no scope.
pub struct ScopeError {
    pub given: String,
}

/// The scope a command works on, when it names a valid one or none.
pub open spec fn chosen_scope(given: Option<String>, installed: Option<ServiceScope>) -> Option<ServiceScope> {
    match given {
        Some(s) => scope_named(s@),
        None => match installed {
            Some(i) => Some(i),
            None => Some(ServiceScope::User),
        },
    }
}

fn scope_or(given: &Option<String>, fallback: ServiceScope) -> (r: Result<ServiceScope, ScopeError>)
    ensures
        match r {
            Ok(s) => match given {
                Some(g) => scope_named(g@) == Some(s),
                None => s == fallback,
            },
            Err(e) => given matches Some(g) && scope_named(g@) is None && e.given@ == g@,
        },
{
    match given {
        Some(g) => match parse_scope(g.as_str()) {
            Some(s) => Ok(s),
            None => Err(ScopeError { given: owned(g.as_str()) }),
        },
        None => Ok(fallback),
    }
}

/// The operation a service command asks for. A scope that is given must
/// name one (else `Err`); when none is given, installing is for the user,
/// status covers whatever is installed, and the other operations act on the
/// installed scope, else the user's.
pub fn handle_command(command: &ServiceCommands, installed_scope: Option<ServiceScope>)
    -> (r: Result<ServiceAction, ScopeError>)
    ensures
        match *command {
            ServiceCommands::Install { scope } => match scope {
                Some(g) => match scope_named(g@) {
                    Some(s) => r == Ok::<ServiceAction, ScopeError>(ServiceAction::Install(s)),
                    None => r is Err,
                },
                None => r == Ok::<ServiceAction, ScopeError>(ServiceAction::Install(ServiceScope::User)),
            },
            ServiceCommands::Status { scope } => match scope {
                Some(g) => match scope_named(g@) {
                    Some(s) => r == Ok::<ServiceAction, ScopeError>(ServiceAction::Status(Some(s))),
                    None => r is Err,
                },
                None => r == Ok::<ServiceAction, ScopeError>(ServiceAction::Status(None)),
            },
            ServiceCommands::Start { scope } => match chosen_scope(scope, installed_scope) {
                Some(s) => r == Ok::<ServiceAction, ScopeError>(ServiceAction::Start(s)),
                None => r is Err,
            },
            ServiceCommands::Stop { scope } => match chosen_scope(scope, installed_scope) {
                Some(s) => r == Ok::<ServiceAction, ScopeError>(ServiceAction::Stop(s)),
                None => r is Err,
            },
            ServiceCommands::Restart { scope } => match chosen_scope(scope, installed_scope) {
                Some(s) => r == Ok::<ServiceAction, ScopeError>(ServiceAction::Restart(s)),
                None => r is Err,
            },
            ServiceCommands::Uninstall { scope } => match chosen_scope(scope, installed_scope) {
                Some(s) => r == Ok::<ServiceAction, ScopeError>(ServiceAction::Uninstall(s)),
                None => r is Err,
            },
            ServiceCommands::Logs { lines, follow, scope } => match chosen_scope(scope, installed_scope) {
                Some(s) => r == Ok::<ServiceAction, ScopeError>(ServiceAction::Logs(s, lines, follow)),
                None => r is Err,
            },
            ServiceCommands::SetConfigDir { path } => r matches Ok(ServiceAction::SetConfigDir(p)) && p@ == path@,
        },
{
    let installed_or_user = match installed_scope {
        Some(s) => s,
        None => ServiceScope::User,
    };
    match command {
        ServiceCommands::Install { scope } => match scope_or(scope, ServiceScope::User) {
            Ok(s) => Ok(ServiceAction::Install(s)),
            Err(e) => Err(e),
        },
        ServiceCommands::Start { scope } => match scope_or(scope, installed_or_user) {
            Ok(s) => Ok(ServiceAction::Start(s)),
            Err(e) => Err(e),
        },
        ServiceCommands::Stop { scope } => match scope_or(scope, installed_or_user) {
            Ok(s) => Ok(ServiceAction::Stop(s)),
            Err(e) => Err(e),
        },
        ServiceCommands::Restart { scope } => match scope_or(scope, installed_or_user) {
            Ok(s) => Ok(ServiceAction::Restart(s)),
            Err(e) => Err(e),
        },
        ServiceCommands::Status { scope } => match scope {
            Some(g) => match parse_scope(g.as_str()) {
                Some(s) => Ok(ServiceAction::Status(Some(s))),
                None => Err(ScopeError { given: owned(g.as_str()) }),
            },
            None => Ok(ServiceAction::Status(None)),
        },
        ServiceCommands::Uninstall { scope } => match scope_or(scope, installed_or_user) {
            Ok(s) => Ok(ServiceAction::Uninstall(s)),
            Err(e) => Err(e),
        },
        ServiceCommands::Logs { lines, follow, scope } => match scope_or(scope, installed_or_user) {
            Ok(s) => Ok(ServiceAction::Logs(s, *lines, *follow)),
            Err(e) => Err(e),
        },
        ServiceCommands::SetConfigDir { path } => Ok(ServiceAction::SetConfigDir(owned(path.as_str()))),
    }
}

/// The name of the Windows service.
pub const SERVICE_NAME: &'static str = "ZeroClawDaemon";

/// The display name of the Windows service.
pub const SERVICE_DISPLAY_NAME: &'static str = "ZeroClaw Daemon";

/// The description of the Windows service.
pub const SERVICE_DESCRIPTION: &'static str = "ZeroClaw autonomous agent runtime daemon";

/// The system-wide configuration directory when nothing else names one.
pub const DEFAULT_SYSTEM_DIR: &'static str = "C:\\ProgramData\\ZeroClaw";

/// The configuration directory of the system service: the one stored at
/// install time; else `ZeroClaw` under `%PROGRAMDATA%`; else the default.
pub fn system_config_dir(stored: &Option<String>, program_data: &Option<String>) -> (r: String)
    ensures
        match *stored {
            Some(s) => r@ == s@,
            None => match *program_data {
                Some(p) => !is_verbatim(p@) ==> joined(p@, "ZeroClaw"@, r@),
                None => r@ == DEFAULT_SYSTEM_DIR@,
            },
        },
{
    match stored {
        Some(s) => owned(s.as_str()),
        None => match program_data {
            Some(p) => {
                proof {
                    reveal_strlit("ZeroClaw");
                    assert(plain_name("ZeroClaw"@));
                }
                path_join(p.as_str(), "ZeroClaw")
            },
            None => owned(DEFAULT_SYSTEM_DIR),
        },
    }
}

/// The logs directory of the system service: `logs` in its configuration
/// directory.
pub fn system_logs_dir(config_dir: &str) -> (r: String)
    ensures
        !is_verbatim(config_dir@) ==> joined(config_dir@, "logs"@, r@),
{
    proof {
        reveal_strlit("logs");
        assert(plain_name("logs"@));
    }
    path_join(config_dir, "logs")
}

/// Whether the arguments already name a configuration directory.
pub open spec fn names_config_dir(args: Seq<String>) -> bool {
    exists|i: int| 0 <= i < args.len() && ((#[trigger] args[i])@ == "--config-dir"@
        || starts_with(args[i]@, "--config-dir="@))
}

/// The arguments of the elevated relaunch: the current ones, with
/// `--config-dir` and the directory put first when none is named yet and
/// a directory is known (the given one, else the environment's) that is not
/// blank.
pub open spec fn relaunch_args(args: Seq<String>, given: Option<Seq<char>>, from_env: Option<Seq<char>>) -> Seq<Seq<char>> {
    let current = Seq::new(args.len(), |i: int| args[i]@);
    let injected = match given {
        Some(g) => Some(g),
        None => from_env,
    };
    if names_config_dir(args) {
        current
    } else {
        match injected {
            Some(d) => if trimmed(d).len() > 0 { seq!["--config-dir"@, d] + current } else { current },
            None => current,
        }
    }
}

/// The arguments of the elevated relaunch (see `relaunch_args`).
pub fn elevation_args(args: &Vec<String>, given: &Option<String>, from_env: &Option<String>) -> (r: Vec<String>)
    ensures
        r@.len() == relaunch_args(args@, match *given {
            Some(g) => Some(g@),
            None => None,
        }, match *from_env {
            Some(e) => Some(e@),
            None => None,
        }).len(),
        forall|i: int| 0 <= i < r@.len() ==> (#[trigger] r@[i])@ == relaunch_args(args@, match *given {
            Some(g) => Some(g@),
            None => None,
        }, match *from_env {
            Some(e) => Some(e@),
            None => None,
        })[i],
{
    let ghost gv: Option<Seq<char>> = if given is Some { Some(given->0@) } else { None };
    let ghost ev: Option<Seq<char>> = if from_env is Some { Some(from_env->0@) } else { None };
    let ghost want = relaunch_args(args@, gv, ev);
    let ghost current = Seq::new(args@.len(), |i: int| args@[i]@);
    let mut has_flag = false;
    let mut i: usize = 0;
    while i < args.len()
        invariant
            i <= args@.len(),
            has_flag == exists|k: int| 0 <= k < i && ((#[trigger] args@[k])@ == "--config-dir"@
                || starts_with(args@[k]@, "--config-dir="@)),
        decreases args@.len() - i,
    {
        let a = crate::text::chars_of(args[i].as_str());
        let flag = crate::text::chars_of("--config-dir");
        let flag_eq = crate::text::chars_of("--config-dir=");
        if crate::text::chars_eq(&a, &flag) || crate::text::has_prefix(&a, &flag_eq) {
            has_flag = true;
        }
        i = i + 1;
    }
    assert(has_flag == names_config_dir(args@));
    let mut out: Vec<String> = Vec::new();
    let ghost mut hv: Seq<Seq<char>> = Seq::empty();
    if !has_flag {
        let injected: Option<&String> = match given {
            Some(g) => Some(g),
            None => match from_env {
                Some(e) => Some(e),
                None => None,
            },
        };
        match injected {
            Some(d) => {
                if trim(d.as_str()).unicode_len() > 0 {
                    out.push(owned("--config-dir"));
                    out.push(owned(d.as_str()));
                    proof {
                        hv = seq!["--config-dir"@, d@];
                    }
                }
            },
            None => {},
        }
    }
    assert(want =~= hv + current);
    assert(out@.len() == hv.len());
    assert(forall|j: int| 0 <= j < hv.len() ==> (#[trigger] out@[j])@ == hv[j]);
    let ghost head = out@;
    let mut k: usize = 0;
    while k < args.len()
        invariant
            k <= args@.len(),
            head.len() == hv.len(),
            out@.len() == head.len() + k,
            forall|j: int| 0 <= j < head.len() ==> out@[j] == head[j],
            forall|j: int| 0 <= j < head.len() ==> (#[trigger] head[j])@ == hv[j],
            forall|j: int| 0 <= j < k ==> (#[trigger] out@[head.len() + j])@ == args@[j]@,
        decreases args@.len() - k,
    {
        out.push(owned(args[k].as_str()));
        k = k + 1;
    }
    proof {
        assert forall|j: int| 0 <= j < out@.len() implies (#[trigger] out@[j])@ == want[j] by {
            if j >= head.len() {
                assert(out@[head.len() + (j - head.len())] == out@[j]);
            } else {
                assert(head[j]@ == hv[j]);
            }
        }
    }
    out
}

/// An argument quoted for a `.cmd` script: in double quotes, inner double
/// quotes doubled.
pub open spec fn cmd_quoted(arg: Seq<char>) -> Seq<char> {
    seq!['"'] + replace_all(arg, seq!['"'], seq!['"', '"']) + seq!['"']
}

/// The quoted arguments, each after a space.
pub open spec fn cmd_args(args: Seq<Seq<char>>) -> Seq<char>
    decreases args.len(),
{
    if args.len() == 0 {
        Seq::empty()
    } else {
        cmd_args(args.drop_last()) + seq![' '] + cmd_quoted(args.last())
    }
}

/// The script the elevated relaunch runs: the executable with its
/// arguments, its output sent to the log file, and its exit code passed on.
pub open spec fn elevation_script_text(exe: Seq<char>, args: Seq<Seq<char>>, log: Seq<char>) -> Seq<char> {
    "@echo off\r\n"@ + seq!['"'] + exe + seq!['"'] + cmd_args(args) + " > \""@ + log + "\" 2>&1\r\n"@
        + "exit /b %ERRORLEVEL%\r\n"@
}

/// The script the elevated relaunch runs (see `elevation_script_text`).
pub fn elevation_script(exe: &str, args: &Vec<String>, log: &str) -> (r: String)
    ensures
        r@ == elevation_script_text(exe@, Seq::new(args@.len(), |i: int| args@[i]@), log@),
{
    let ghost av = Seq::new(args@.len(), |i: int| args@[i]@);
    let mut v: Vec<char> = Vec::new();
    push_str(&mut v, "@echo off\r\n");
    v.push('"');
    push_str(&mut v, exe);
    v.push('"');
    let ghost head = v@;
    let quote = crate::text::chars_of("\"");
    let doubled = crate::text::chars_of("\"\"");
    proof {
        reveal_strlit("\"");
        reveal_strlit("\"\"");
    }
    assert(quote@ =~= seq!['"']);
    assert(doubled@ =~= seq!['"', '"']);
    let mut i: usize = 0;
    assert(av.take(0) =~= Seq::<Seq<char>>::empty());
    while i < args.len()
        invariant
            i <= args@.len(),
            av == Seq::new(args@.len(), |i: int| args@[i]@),
            quote@ == seq!['"'],
            doubled@ == seq!['"', '"'],
            v@ == head + cmd_args(av.take(i as int)),
        decreases args@.len() - i,
    {
        assert(av.take(i + 1).drop_last() =~= av.take(i as int));
        assert(av.take(i + 1).last() == args@[i as int]@);
        v.push(' ');
        v.push('"');
        let a = crate::text::chars_of(args[i].as_str());
        let esc = crate::pattern::replace(&a, &quote, &doubled);
        crate::text::push_chars(&mut v, &esc);
        v.push('"');
        assert(v@ =~= head + cmd_args(av.take(i + 1)));
        i = i + 1;
    }
    assert(av.take(i as int) =~= av);
    push_str(&mut v, " > \"");
    push_str(&mut v, log);
    push_str(&mut v, "\" 2>&1\r\n");
    push_str(&mut v, "exit /b %ERRORLEVEL%\r\n");
    assert(v@ =~= elevation_script_text(exe@, av, log@));
    string_of(&v)
}

/// The PowerShell command that runs the script elevated and passes its exit
/// code on; the script's path is single-quoted, inner single quotes doubled.
pub open spec fn elevation_command_text(script_path: Seq<char>) -> Seq<char> {
    "$ErrorActionPreference = 'Stop'; $p = Start-Process -FilePath '"@ + replace_all(script_path, seq!['\''],
        seq!['\'', '\'']) + "' -Verb RunAs -Wait -PassThru; exit $p.ExitCode"@
}

/// The PowerShell command of the elevated relaunch (see
/// `elevation_command_text`).
pub fn elevation_command(script_path: &str) -> (r: String)
    ensures
        r@ == elevation_command_text(script_path@),
{
    let mut v: Vec<char> = Vec::new();
    push_str(&mut v, "$ErrorActionPreference = 'Stop'; $p = Start-Process -FilePath '");
    let p = crate::text::chars_of(script_path);
    let mut q: Vec<char> = Vec::new();
    q.push('\'');
    let mut qq: Vec<char> = Vec::new();
    qq.push('\'');
    qq.push('\'');
    assert(q@ =~= seq!['\'']);
    assert(qq@ =~= seq!['\'', '\'']);
    let esc = crate::pattern::replace(&p, &q, &qq);
    crate::text::push_chars(&mut v, &esc);
    push_str(&mut v, "' -Verb RunAs -Wait -PassThru; exit $p.ExitCode");
    string_of(&v)
}

/// The file names of the elevated relaunch's script and log for a process
/// id: `zeroclaw-elevate-<pid>.cmd` and `.log`.
pub fn elevation_file_names(pid: u32) -> (r: (String, String))
    ensures
        r.0@ == "zeroclaw-elevate-"@ + crate::text::dec(pid as nat) + ".cmd"@,
        r.1@ == "zeroclaw-elevate-"@ + crate::text::dec(pid as nat) + ".log"@,
{
    let d = crate::text::dec_of(pid as u64);
    let mut a: Vec<char> = Vec::new();
    push_str(&mut a, "zeroclaw-elevate-");
    crate::text::push_chars(&mut a, &d);
    push_str(&mut a, ".cmd");
    let mut b: Vec<char> = Vec::new();
    push_str(&mut b, "zeroclaw-elevate-");
    crate::text::push_chars(&mut b, &d);
    push_str(&mut b, ".log");
    (string_of(&a), string_of(&b))
}

/// A request the service manager sends to the running service.
#[derive(Clone, Copy, Debug, PartialEq, Eq, Structural)]
pub enum ControlRequest {
    Stop,
    Shutdown,
    Interrogate,
    Other,
}

/// The service's answer to a control request.
#[derive(Clone, Copy, Debug, PartialEq, Eq, Structural)]
pub enum ControlReply {
    NoError,
    NotImplemented,
}

/// How the service answers a control request, and whether the request
/// stops it: stop and shutdown stop it; an interrogation is answered; other
/// requests are not handled.
pub fn on_control(request: ControlRequest) -> (r: (ControlReply, bool))
    ensures
        r == (match request {
            ControlRequest::Stop | ControlRequest::Shutdown => (ControlReply::NoError, true),
            ControlRequest::Interrogate => (ControlReply::NoError, false),
            ControlRequest::Other => (ControlReply::NotImplemented, false),
        }),
{
    match request {
        ControlRequest::Stop | ControlRequest::Shutdown => (ControlReply::NoError, true),
        ControlRequest::Interrogate => (ControlReply::NoError, false),
        ControlRequest::Other => (ControlReply::NotImplemented, false),
    }
}

/// The lines of the system service's status report.
pub open spec fn status_report_lines(installed: bool, running: bool, config_dir: Seq<char>, logs_dir: Seq<char>)
    -> Seq<Seq<char>> {
    if !installed {
        seq!["Service: ❌ not installed (system scope)"@]
    } else {
        seq![
            "Service: "@ + (if running { "✅ running"@ } else { "❌ not running"@ }) + " (system scope)"@,
            "Service name: "@ + SERVICE_NAME@,
            "Config dir:   "@ + config_dir,
            "Logs:         "@ + logs_dir,
        ]
    }
}

/// The lines of the system service's status report.
pub fn status_report(installed: bool, running: bool, config_dir: &str, logs_dir: &str) -> (r: Vec<String>)
    ensures
        r@.len() == status_report_lines(installed, running, config_dir@, logs_dir@).len(),
        forall|i: int| 0 <= i < r@.len() ==> (#[trigger] r@[i])@ == status_report_lines(installed, running,
            config_dir@, logs_dir@)[i],
{
    let mut r: Vec<String> = Vec::new();
    if !installed {
        r.push(owned("Service: ❌ not installed (system scope)"));
        return r;
    }
    let mut a: Vec<char> = Vec::new();
    push_str(&mut a, "Service: ");
    if running {
        push_str(&mut a, "✅ running");
    } else {
        push_str(&mut a, "❌ not running");
    }
    push_str(&mut a, " (system scope)");
    r.push(string_of(&a));
    let mut b: Vec<char> = Vec::new();
    push_str(&mut b, "Service name: ");
    push_str(&mut b, SERVICE_NAME);
    r.push(string_of(&b));
    let mut c: Vec<char> = Vec::new();
    push_str(&mut c, "Config dir:   ");
    push_str(&mut c, config_dir);
    r.push(string_of(&c));
    let mut d: Vec<char> = Vec::new();
    push_str(&mut d, "Logs:         ");
    push_str(&mut d, logs_dir);
    r.push(string_of(&d));
    r
}

} // verus!
