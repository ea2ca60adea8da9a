//! What the command line asks for.

use vstd::prelude::*;

use crate::text::{chars_of, concat, owned, str_eq, trimmed};
#[allow(unused_imports)]
use crate::text::trim;

verus! {

/// What the command line asks for.
#[derive(Debug, Clone)]
pub enum Command {
    /// A request with a JSON text, or the file that holds it.
    Proxy { method: String, payload: String },
    /// A request without anything more.
    ServerStatus { method: String },
    /// A scan that is read from the input.
    ScanStdin,
}

/// A request without the JSON text that it needs.
#[derive(Debug, Clone, Copy, PartialEq, Eq, Structural)]
pub struct MissingPayload;

/// The commands that take a JSON text.
pub open spec fn takes_payload(c: Seq<char>) -> bool {
    c == "refresh"@ || c == "watch"@ || c == "query"@ || c == "setup"@
}

/// The commands that only ask how the server is.
pub open spec fn asks_status(c: Seq<char>) -> bool {
    c == "status"@ || c == "list_projects"@
}

/// What the arguments ask for, the name of the program being the first of them.
/// The JSON text of a request is left as it stands there.
pub fn parse_command(args: &Vec<String>) -> (r: Result<Option<Command>, MissingPayload>)
    ensures
        match r {
            Err(_) => args@.len() == 2 && takes_payload(args@[1]@),
            Ok(None) => args@.len() < 2,
            Ok(Some(Command::Proxy { method, payload })) => args@.len() > 2 && takes_payload(
                args@[1]@,
            ) && method@ == args@[1]@ && payload@ == args@[2]@,
            Ok(Some(Command::ServerStatus { method })) => args@.len() > 1 && asks_status(
                args@[1]@,
            ) && method@ == args@[1]@,
            Ok(Some(Command::ScanStdin)) => args@.len() > 1 && !takes_payload(args@[1]@)
                && !asks_status(args@[1]@),
        },
{
    if args.len() < 2 {
        return Ok(None);
    }
    let c = args[1].as_str();
    if str_eq(c, "refresh") || str_eq(c, "watch") || str_eq(c, "query") || str_eq(c, "setup") {
        if args.len() < 3 {
            return Err(MissingPayload);
        }
        return Ok(Some(Command::Proxy { method: owned(c), payload: args[2].clone() }));
    }
    if str_eq(c, "status") || str_eq(c, "list_projects") {
        proof {
            reveal_strlit("status");
            reveal_strlit("list_projects");
            reveal_strlit("refresh");
            reveal_strlit("watch");
            reveal_strlit("query");
            reveal_strlit("setup");
        }
        return Ok(Some(Command::ServerStatus { method: owned(c) }));
    }
    Ok(Some(Command::ScanStdin))
}

/// Whether the argument is a JSON text itself, and cannot be the name of a file.
pub fn is_inline_payload(input: &str) -> (r: bool)
    ensures
        r == (trim(input@).len() > 0 && (trim(input@)[0] == '{' || trim(input@)[0] == '[')),
{
    let v = chars_of(input);
    let t = trimmed(v.as_slice());
    t.len() > 0 && (t[0] == '{' || t[0] == '[')
}

/// What the program does.
#[derive(Debug, Clone)]
pub enum CliStep {
    /// It hands the request to the server.
    AskServer { method: String, payload: String },
    /// It refreshes the project itself.
    RefreshHere { payload: String },
    /// It says that it cannot.
    Fail { message: String },
    /// It says that there is no server.
    SayNotRunning,
    /// It reads a scan from the input.
    ReadScan,
}

/// What the program does with a command, by whether there is a server.
pub open spec fn step_of(command: Option<Command>, server: bool, step: CliStep) -> bool {
    match command {
        Some(Command::Proxy { method, payload }) => if server {
            step matches CliStep::AskServer { method: m, payload: p } && m@ == method@ && p@
                == payload@
        } else if method@ == "refresh"@ {
            step matches CliStep::RefreshHere { payload: p } && p@ == payload@
        } else {
            step matches CliStep::Fail { message } && message@
                == "Server is not running for command: "@ + method@
        },
        Some(Command::ServerStatus { method }) => if server {
            step matches CliStep::AskServer { method: m, payload: p } && m@ == method@ && p@
                == "{}"@
        } else {
            step is SayNotRunning
        },
        _ => step is ReadScan,
    }
}

/// What the program does with a command, by whether there is a server.
pub fn plan_command(command: Option<Command>, server: bool) -> (r: CliStep)
    ensures
        step_of(command, server, r),
{
    match command {
        Some(Command::Proxy { method, payload }) => {
            if server {
                CliStep::AskServer { method, payload }
            } else if str_eq(method.as_str(), "refresh") {
                CliStep::RefreshHere { payload }
            } else {
                CliStep::Fail {
                    message: concat("Server is not running for command: ", method.as_str()),
                }
            }
        },
        Some(Command::ServerStatus { method }) => {
            if server {
                CliStep::AskServer { method, payload: owned("{}") }
            } else {
                CliStep::SayNotRunning
            }
        },
        _ => CliStep::ReadScan,
    }
}

/// What the program does with a scan.
#[derive(Debug, Clone, Copy, PartialEq, Eq, Structural)]
pub enum ScanStep {
    /// Nothing: there is none.
    Nothing,
    /// It hands the scan to the server.
    AskServer,
    /// It scans the files itself.
    ScanHere,
}

/// What the program does with what it has read from the input.
pub fn plan_scan(input: &str, server: bool) -> (r: ScanStep)
    ensures
        r == (if trim(input@).len() == 0 {
            ScanStep::Nothing
        } else if server {
            ScanStep::AskServer
        } else {
            ScanStep::ScanHere
        }),
{
    let v = chars_of(input);
    if trimmed(v.as_slice()).len() == 0 {
        ScanStep::Nothing
    } else if server {
        ScanStep::AskServer
    } else {
        ScanStep::ScanHere
    }
}

} // verus!
