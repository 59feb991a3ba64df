//! Where the program keeps its files, how the user service is described to
//! systemd, and the clients of the daemon's control socket.
use std::time::Duration;

use vstd::prelude::*;

use crate::protocol::{CollectorStatus, ControlRequest, ControlResponse};
use crate::runtime::{duration_from_secs, path_join, path_joined, seconds_duration};
use crate::text::{chars_of, string_of};

verus! {

/// The files and sockets of the program.
#[derive(Debug, Clone, PartialEq, Eq)]
pub struct AppPaths {
    pub config_file: String,
    pub database_file: String,
    pub runtime_dir: String,
    pub control_socket: String,
    pub systemd_unit: String,
}

/// Why the program's directories could not be found.
/// The context queries of one installation, over its files.
#[derive(Debug, Clone, PartialEq, Eq)]
pub struct ContextService {
    pub paths: AppPaths,
}

#[derive(Debug, Clone, Copy, PartialEq, Eq, Structural)]
pub enum PathsError {
    HomeUnavailable,
    RuntimeDirectoryUnavailable,
}

/// Whether paths are those derived from the configuration and data
/// directories, the runtime root and the home directory.
pub open spec fn paths_from(p: AppPaths, config_dir: Seq<char>, data_dir: Seq<char>, runtime_root: Seq<char>, home: Seq<char>) -> bool {
    let runtime_dir = path_joined(runtime_root, "openbrief"@);
    &&& p.config_file@ == path_joined(config_dir, "config.toml"@)
    &&& p.database_file@ == path_joined(data_dir, "openbrief.sqlite3"@)
    &&& p.runtime_dir@ == runtime_dir
    &&& p.control_socket@ == path_joined(runtime_dir, "control.sock"@)
    &&& p.systemd_unit@ == path_joined(path_joined(path_joined(path_joined(home, ".config"@), "systemd"@), "user"@), "openbrief.service"@)
}

impl AppPaths {
    /// The paths, given the project's configuration and data directories
    /// (when the home directory is known), the runtime root and the home
    /// directory; the first that is missing is reported.
    pub fn discover_from(project_dirs: Option<(String, String)>, runtime_root: Option<String>, home: Option<String>) -> (r: Result<AppPaths, PathsError>)
        ensures
            match (project_dirs, runtime_root, home) {
                (None, _, _) => r == Err::<AppPaths, PathsError>(PathsError::HomeUnavailable),
                (Some(_), None, _) => r == Err::<AppPaths, PathsError>(PathsError::RuntimeDirectoryUnavailable),
                (Some(_), Some(_), None) => r == Err::<AppPaths, PathsError>(PathsError::HomeUnavailable),
                (Some((c, d)), Some(rt), Some(h)) => r matches Ok(p) && paths_from(p, c@, d@, rt@, h@),
            },
    {
        let (config_dir, data_dir) = match project_dirs {
            Some(p) => p,
            None => return Err(PathsError::HomeUnavailable),
        };
        let runtime_root = match runtime_root {
            Some(r) => r,
            None => return Err(PathsError::RuntimeDirectoryUnavailable),
        };
        let home = match home {
            Some(h) => h,
            None => return Err(PathsError::HomeUnavailable),
        };
        let runtime_dir = path_join(runtime_root.as_str(), "openbrief");
        let config = path_join(home.as_str(), ".config");
        let systemd = path_join(config.as_str(), "systemd");
        let user = path_join(systemd.as_str(), "user");
        Ok(AppPaths {
            config_file: path_join(config_dir.as_str(), "config.toml"),
            database_file: path_join(data_dir.as_str(), "openbrief.sqlite3"),
            control_socket: path_join(runtime_dir.as_str(), "control.sock"),
            runtime_dir,
            systemd_unit: path_join(user.as_str(), "openbrief.service"),
        })
    }
}

/// Why the user service could not be described or installed.
#[derive(Debug, Clone, Copy, PartialEq, Eq, Structural)]
pub enum ServiceError {
    /// The unit path has no parent directory.
    InvalidUnitPath,
    /// The executable path is not valid text.
    NonUtf8Executable,
    /// The executable path contains a line break.
    InvalidExecutable,
}

/// Installs and removes the user service.
#[derive(Debug, Clone, PartialEq, Eq)]
pub struct ServiceManager {
    pub unit_path: String,
}

impl ServiceManager {
    /// A manager for the unit at the path.
    pub fn new(unit_path: String) -> (r: ServiceManager)
        ensures
            r.unit_path == unit_path,
    {
        ServiceManager { unit_path }
    }
}

/// A path quoted for a unit file: backslashes doubled, quotes escaped.
pub open spec fn unit_escaped(s: Seq<char>) -> Seq<char>
    decreases s.len(),
{
    if s.len() == 0 {
        seq![]
    } else {
        unit_escaped(s.drop_last()) + if s.last() == '\\' {
            seq!['\\', '\\']
        } else if s.last() == '"' {
            seq!['\\', '"']
        } else {
            seq![s.last()]
        }
    }
}

/// The unit text before the executable.
pub open spec fn unit_head() -> Seq<char> {
    "[Unit]\nDescription=OpenBrief local daemon\nAfter=graphical-session.target\nPartOf=graphical-session.target\n\n[Service]\nType=simple\nExecStart=\""@
}

/// The unit text after the executable: restart on failure, a private
/// umask, no new privileges, started with the graphical session.
pub open spec fn unit_tail() -> Seq<char> {
    "\"\nRestart=on-failure\nRestartSec=3\nUMask=0077\nNoNewPrivileges=true\n\n[Install]\nWantedBy=graphical-session.target\n"@
}

/// Whether a text holds a line break.
pub open spec fn has_line_break(s: Seq<char>) -> bool {
    exists|i: int| 0 <= i < s.len() && (s[i] == '\n' || s[i] == '\r')
}

/// The systemd user unit that runs the daemon from the executable.
pub fn render_unit(executable: &str) -> (r: Result<String, ServiceError>)
    ensures
        has_line_break(executable@) ==> r == Err::<String, ServiceError>(ServiceError::InvalidExecutable),
        !has_line_break(executable@) ==> (r matches Ok(u) && u@ == unit_head() + unit_escaped(executable@) + unit_tail()),
{
    let t = chars_of(executable);
    let mut escaped: Vec<char> = Vec::new();
    let mut k: usize = 0;
    while k < t.len()
        invariant
            k <= t@.len(),
            t@ == executable@,
            escaped@ == unit_escaped(t@.take(k as int)),
            forall|i: int| 0 <= i < k ==> t@[i] != '\n' && t@[i] != '\r',
        decreases t@.len() - k,
    {
        let c = t[k];
        proof { assert(t@.take(k + 1).drop_last() =~= t@.take(k as int)); }
        if c == '\n' || c == '\r' {
            return Err(ServiceError::InvalidExecutable);
        }
        let ghost before = escaped@;
        if c == '\\' {
            escaped.push('\\');
            escaped.push('\\');
        } else if c == '"' {
            escaped.push('\\');
            escaped.push('"');
        } else {
            escaped.push(c);
        }
        proof {
            assert(escaped@ =~= before + unit_escaped(t@.take(k + 1)).subrange(before.len() as int, unit_escaped(t@.take(k + 1)).len() as int));
        }
        k = k + 1;
    }
    proof { assert(t@.take(t@.len() as int) =~= t@); }
    let mut text = chars_of("[Unit]\nDescription=OpenBrief local daemon\nAfter=graphical-session.target\nPartOf=graphical-session.target\n\n[Service]\nType=simple\nExecStart=\"");
    crate::text::extend_chars(&mut text, escaped.as_slice());
    let tail = chars_of("\"\nRestart=on-failure\nRestartSec=3\nUMask=0077\nNoNewPrivileges=true\n\n[Install]\nWantedBy=graphical-session.target\n");
    crate::text::extend_chars(&mut text, tail.as_slice());
    Ok(string_of(text.as_slice()))
}

/// A client of the daemon's control socket.
#[derive(Debug, Clone, PartialEq, Eq)]
pub struct LocalControlClient {
    pub socket: String,
}

impl LocalControlClient {
    /// A client of the socket at the path.
    pub fn new(socket: String) -> (r: LocalControlClient)
        ensures
            r.socket == socket,
    {
        LocalControlClient { socket }
    }
}

/// A client of the collector's control socket.
#[derive(Debug, Clone, PartialEq, Eq)]
pub struct ControlClient {
    pub socket: String,
}

impl ControlClient {
    /// A client of the socket at the path.
    pub fn new(socket: String) -> (r: ControlClient)
        ensures
            r.socket == socket,
    {
        ControlClient { socket }
    }
}

/// How many seconds a client waits for the answer to a request: signing in
/// may take a while, starting the agent less, anything else five seconds.
pub open spec fn spec_timeout_seconds(r: ControlRequest) -> u64 {
    match r {
        ControlRequest::AgentAuthenticate { .. } => 130,
        ControlRequest::AgentStart => 20,
        _ => 5,
    }
}

/// How long a client waits for the answer to a request.
pub fn request_timeout(request: &ControlRequest) -> (r: Duration)
    ensures
        r == seconds_duration(spec_timeout_seconds(*request)),
{
    match request {
        ControlRequest::AgentAuthenticate { .. } => duration_from_secs(130),
        ControlRequest::AgentStart => duration_from_secs(20),
        _ => duration_from_secs(5),
    }
}

/// The acknowledgement a request expects; anything else is handed back.
pub fn expect_acknowledged(response: ControlResponse) -> (r: Result<(), ControlResponse>)
    ensures
        response is Acknowledged ==> r is Ok,
        !(response is Acknowledged) ==> r == Err::<(), ControlResponse>(response),
{
    match response {
        ControlResponse::Acknowledged => Ok(()),
        other => Err(other),
    }
}

/// The status a status request expects; anything else is handed back.
pub fn expect_status(response: ControlResponse) -> (r: Result<CollectorStatus, ControlResponse>)
    ensures
        match response {
            ControlResponse::Status(s) => r == Ok::<CollectorStatus, ControlResponse>(s),
            _ => r == Err::<CollectorStatus, ControlResponse>(response),
        },
{
    match response {
        ControlResponse::Status(s) => Ok(s),
        other => Err(other),
    }
}

/// The count a delete request expects; anything else is handed back.
pub fn expect_deleted(response: ControlResponse) -> (r: Result<u64, ControlResponse>)
    ensures
        match response {
            ControlResponse::Deleted { segments } => r == Ok::<u64, ControlResponse>(segments),
            _ => r == Err::<u64, ControlResponse>(response),
        },
{
    match response {
        ControlResponse::Deleted { segments } => Ok(segments),
        other => Err(other),
    }
}

} // verus!
