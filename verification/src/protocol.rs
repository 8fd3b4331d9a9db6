//! The host-to-guest-agent line protocol: one JSON object per line,
//! tagged by `type` in snake case.
//!
//! The guest agent answers `ping`, `execute`, `read_file` and
//! `write_file` requests. Both sides of the wire live here — the
//! printers, the parsers, and the decision functions around them —
//! while the sockets and the subprocesses that carry and serve the
//! lines stay outside.

use vstd::prelude::*;
use vstd::string::StringExecFns;

use crate::error::BashletError;
use crate::json::{
    eat_spec, is_ws, match_at, parse_end, parse_field_bool, parse_field_int, parse_field_str,
    quoted, scan_end, ws_end,
};
use crate::sandbox::CommandResult;
use crate::strconv::{chars_to_string, dec_signed, push_i64, push_str_chars, string_to_chars};

verus! {

// ---------------------------------------------------------------------------
// Messages
// ---------------------------------------------------------------------------

/// A request to the guest agent.
#[derive(Debug)]
pub enum AgentRequest {
    Execute { command: String, workdir: String },
    ReadFile { path: String },
    WriteFile { path: String, content: String },
    Ping,
}

/// A response from the guest agent.
#[derive(Debug)]
pub enum AgentResponse {
    Execute { exit_code: i32, stdout: String, stderr: String },
    ReadFile { content: String },
    WriteFile { success: bool },
    Pong,
    Error { message: String },
}

/// Mathematical shape of a request.
pub enum ReqV {
    Execute { command: Seq<char>, workdir: Seq<char> },
    ReadFile { path: Seq<char> },
    WriteFile { path: Seq<char>, content: Seq<char> },
    Ping,
}

/// Mathematical shape of a response.
pub enum RespV {
    Execute { exit_code: int, stdout: Seq<char>, stderr: Seq<char> },
    ReadFile { content: Seq<char> },
    WriteFile { success: bool },
    Pong,
    Error { message: Seq<char> },
}

impl View for AgentRequest {
    type V = ReqV;

    open spec fn view(&self) -> ReqV {
        match self {
            AgentRequest::Execute { command, workdir } => ReqV::Execute {
                command: command@,
                workdir: workdir@,
            },
            AgentRequest::ReadFile { path } => ReqV::ReadFile { path: path@ },
            AgentRequest::WriteFile { path, content } => ReqV::WriteFile {
                path: path@,
                content: content@,
            },
            AgentRequest::Ping => ReqV::Ping,
        }
    }
}

impl View for AgentResponse {
    type V = RespV;

    open spec fn view(&self) -> RespV {
        match self {
            AgentResponse::Execute { exit_code, stdout, stderr } => RespV::Execute {
                exit_code: *exit_code as int,
                stdout: stdout@,
                stderr: stderr@,
            },
            AgentResponse::ReadFile { content } => RespV::ReadFile { content: content@ },
            AgentResponse::WriteFile { success } => RespV::WriteFile { success: *success },
            AgentResponse::Pong => RespV::Pong,
            AgentResponse::Error { message } => RespV::Error { message: message@ },
        }
    }
}

// ---------------------------------------------------------------------------
// Printers
// ---------------------------------------------------------------------------

/// The one wire form of a request.
pub open spec fn spec_print_request(r: ReqV) -> Seq<char> {
    match r {
        ReqV::Execute { command, workdir } => "{\"type\":\"execute\",\"command\":"@ + quoted(
            command,
        ) + ",\"workdir\":"@ + quoted(workdir) + "}"@,
        ReqV::ReadFile { path } => "{\"type\":\"read_file\",\"path\":"@ + quoted(path) + "}"@,
        ReqV::WriteFile { path, content } => "{\"type\":\"write_file\",\"path\":"@ + quoted(path)
            + ",\"content\":"@ + quoted(content) + "}"@,
        ReqV::Ping => "{\"type\":\"ping\"}"@,
    }
}

/// The one wire form of a response.
pub open spec fn spec_print_response(r: RespV) -> Seq<char> {
    match r {
        RespV::Execute { exit_code, stdout, stderr } => "{\"type\":\"execute\",\"exit_code\":"@
            + dec_signed(exit_code) + ",\"stdout\":"@ + quoted(stdout) + ",\"stderr\":"@ + quoted(
            stderr,
        ) + "}"@,
        RespV::ReadFile { content } => "{\"type\":\"read_file\",\"content\":"@ + quoted(content)
            + "}"@,
        RespV::WriteFile { success } => "{\"type\":\"write_file\",\"success\":"@ + (if success {
            "true"@
        } else {
            "false"@
        }) + "}"@,
        RespV::Pong => "{\"type\":\"pong\"}"@,
        RespV::Error { message } => "{\"type\":\"error\",\"message\":"@ + quoted(message) + "}"@,
    }
}

/// Prints a request as one JSON line (without the trailing newline).
pub fn print_request(r: &AgentRequest) -> (out: String)
    ensures
        out@ == spec_print_request(r@),
{
    let mut v: Vec<char> = Vec::new();
    match r {
        AgentRequest::Execute { command, workdir } => {
            push_str_chars(&mut v, "{\"type\":\"execute\",\"command\":");
            crate::json::push_quoted(&mut v, command.as_str());
            push_str_chars(&mut v, ",\"workdir\":");
            crate::json::push_quoted(&mut v, workdir.as_str());
            push_str_chars(&mut v, "}");
        },
        AgentRequest::ReadFile { path } => {
            push_str_chars(&mut v, "{\"type\":\"read_file\",\"path\":");
            crate::json::push_quoted(&mut v, path.as_str());
            push_str_chars(&mut v, "}");
        },
        AgentRequest::WriteFile { path, content } => {
            push_str_chars(&mut v, "{\"type\":\"write_file\",\"path\":");
            crate::json::push_quoted(&mut v, path.as_str());
            push_str_chars(&mut v, ",\"content\":");
            crate::json::push_quoted(&mut v, content.as_str());
            push_str_chars(&mut v, "}");
        },
        AgentRequest::Ping => {
            push_str_chars(&mut v, "{\"type\":\"ping\"}");
        },
    }
    assert(v@ =~= spec_print_request(r@));
    chars_to_string(&v)
}

/// Prints a response as one JSON line (without the trailing newline).
pub fn print_response(r: &AgentResponse) -> (out: String)
    ensures
        out@ == spec_print_response(r@),
{
    let mut v: Vec<char> = Vec::new();
    match r {
        AgentResponse::Execute { exit_code, stdout, stderr } => {
            push_str_chars(&mut v, "{\"type\":\"execute\",\"exit_code\":");
            push_i64(&mut v, *exit_code as i64);
            push_str_chars(&mut v, ",\"stdout\":");
            crate::json::push_quoted(&mut v, stdout.as_str());
            push_str_chars(&mut v, ",\"stderr\":");
            crate::json::push_quoted(&mut v, stderr.as_str());
            push_str_chars(&mut v, "}");
        },
        AgentResponse::ReadFile { content } => {
            push_str_chars(&mut v, "{\"type\":\"read_file\",\"content\":");
            crate::json::push_quoted(&mut v, content.as_str());
            push_str_chars(&mut v, "}");
        },
        AgentResponse::WriteFile { success } => {
            push_str_chars(&mut v, "{\"type\":\"write_file\",\"success\":");
            if *success {
                push_str_chars(&mut v, "true");
            } else {
                push_str_chars(&mut v, "false");
            }
            push_str_chars(&mut v, "}");
        },
        AgentResponse::Pong => {
            push_str_chars(&mut v, "{\"type\":\"pong\"}");
        },
        AgentResponse::Error { message } => {
            push_str_chars(&mut v, "{\"type\":\"error\",\"message\":");
            crate::json::push_quoted(&mut v, message.as_str());
            push_str_chars(&mut v, "}");
        },
    }
    assert(v@ =~= spec_print_response(r@));
    chars_to_string(&v)
}

// ---------------------------------------------------------------------------
// Parsers
// ---------------------------------------------------------------------------

/// Consumes the opening brace, the `"type"` key and its colon,
/// leaving the position of the quoted tag value.
pub open spec fn parse_head(s: Seq<char>) -> Option<int> {
    match eat_spec(s, 0, "{"@) {
        None => None,
        Some(i1) => match eat_spec(s, i1, "\"type\""@) {
            None => None,
            Some(i2) => eat_spec(s, i2, ":"@),
        },
    }
}

/// The `execute` request body after its tag.
pub open spec fn parse_req_execute(s: Seq<char>, i4: int) -> Option<ReqV> {
    match eat_spec(s, i4, ","@) {
        None => None,
        Some(i5) => match parse_field_str(s, i5, "\"command\""@) {
            None => None,
            Some((command, i6)) => match eat_spec(s, i6, ","@) {
                None => None,
                Some(i7) => match parse_field_str(s, i7, "\"workdir\""@) {
                    None => None,
                    Some((workdir, i8)) => if parse_end(s, i8) {
                        Some(ReqV::Execute { command, workdir })
                    } else {
                        None
                    },
                },
            },
        },
    }
}

/// The `read_file` request body after its tag.
pub open spec fn parse_req_read(s: Seq<char>, i4: int) -> Option<ReqV> {
    match eat_spec(s, i4, ","@) {
        None => None,
        Some(i5) => match parse_field_str(s, i5, "\"path\""@) {
            None => None,
            Some((path, i6)) => if parse_end(s, i6) {
                Some(ReqV::ReadFile { path })
            } else {
                None
            },
        },
    }
}

/// The `write_file` request body after its tag.
pub open spec fn parse_req_write(s: Seq<char>, i4: int) -> Option<ReqV> {
    match eat_spec(s, i4, ","@) {
        None => None,
        Some(i5) => match parse_field_str(s, i5, "\"path\""@) {
            None => None,
            Some((path, i6)) => match eat_spec(s, i6, ","@) {
                None => None,
                Some(i7) => match parse_field_str(s, i7, "\"content\""@) {
                    None => None,
                    Some((content, i8)) => if parse_end(s, i8) {
                        Some(ReqV::WriteFile { path, content })
                    } else {
                        None
                    },
                },
            },
        },
    }
}

/// Parses one request line. Accepts exactly the objects of the
/// schema, fields in their canonical order, with arbitrary
/// whitespace between tokens.
pub open spec fn spec_parse_request(s: Seq<char>) -> Option<ReqV> {
    match parse_head(s) {
        None => None,
        Some(i3) => if eat_spec(s, i3, "\"ping\""@) is Some {
            if parse_end(s, eat_spec(s, i3, "\"ping\""@).unwrap()) {
                Some(ReqV::Ping)
            } else {
                None
            }
        } else if eat_spec(s, i3, "\"execute\""@) is Some {
            parse_req_execute(s, eat_spec(s, i3, "\"execute\""@).unwrap())
        } else if eat_spec(s, i3, "\"read_file\""@) is Some {
            parse_req_read(s, eat_spec(s, i3, "\"read_file\""@).unwrap())
        } else if eat_spec(s, i3, "\"write_file\""@) is Some {
            parse_req_write(s, eat_spec(s, i3, "\"write_file\""@).unwrap())
        } else {
            None
        },
    }
}

/// The `execute` response body after its tag.
pub open spec fn parse_resp_execute(s: Seq<char>, i4: int) -> Option<RespV> {
    match eat_spec(s, i4, ","@) {
        None => None,
        Some(i5) => match parse_field_int(s, i5, "\"exit_code\""@) {
            None => None,
            Some((exit_code, i6)) => match eat_spec(s, i6, ","@) {
                None => None,
                Some(i7) => match parse_field_str(s, i7, "\"stdout\""@) {
                    None => None,
                    Some((stdout, i8)) => match eat_spec(s, i8, ","@) {
                        None => None,
                        Some(i9) => match parse_field_str(s, i9, "\"stderr\""@) {
                            None => None,
                            Some((stderr, i10)) => if parse_end(s, i10) && -0x8000_0000
                                <= exit_code < 0x8000_0000 {
                                Some(RespV::Execute { exit_code, stdout, stderr })
                            } else {
                                None
                            },
                        },
                    },
                },
            },
        },
    }
}

/// The `read_file` response body after its tag.
pub open spec fn parse_resp_read(s: Seq<char>, i4: int) -> Option<RespV> {
    match eat_spec(s, i4, ","@) {
        None => None,
        Some(i5) => match parse_field_str(s, i5, "\"content\""@) {
            None => None,
            Some((content, i6)) => if parse_end(s, i6) {
                Some(RespV::ReadFile { content })
            } else {
                None
            },
        },
    }
}

/// The `write_file` response body after its tag.
pub open spec fn parse_resp_write(s: Seq<char>, i4: int) -> Option<RespV> {
    match eat_spec(s, i4, ","@) {
        None => None,
        Some(i5) => match parse_field_bool(s, i5, "\"success\""@) {
            None => None,
            Some((success, i6)) => if parse_end(s, i6) {
                Some(RespV::WriteFile { success })
            } else {
                None
            },
        },
    }
}

/// The `error` response body after its tag.
pub open spec fn parse_resp_error(s: Seq<char>, i4: int) -> Option<RespV> {
    match eat_spec(s, i4, ","@) {
        None => None,
        Some(i5) => match parse_field_str(s, i5, "\"message\""@) {
            None => None,
            Some((message, i6)) => if parse_end(s, i6) {
                Some(RespV::Error { message })
            } else {
                None
            },
        },
    }
}

/// Parses one response line; the mirror image of
/// [`spec_parse_request`] for the five response shapes.
pub open spec fn spec_parse_response(s: Seq<char>) -> Option<RespV> {
    match parse_head(s) {
        None => None,
        Some(i3) => if eat_spec(s, i3, "\"pong\""@) is Some {
            if parse_end(s, eat_spec(s, i3, "\"pong\""@).unwrap()) {
                Some(RespV::Pong)
            } else {
                None
            }
        } else if eat_spec(s, i3, "\"execute\""@) is Some {
            parse_resp_execute(s, eat_spec(s, i3, "\"execute\""@).unwrap())
        } else if eat_spec(s, i3, "\"read_file\""@) is Some {
            parse_resp_read(s, eat_spec(s, i3, "\"read_file\""@).unwrap())
        } else if eat_spec(s, i3, "\"write_file\""@) is Some {
            parse_resp_write(s, eat_spec(s, i3, "\"write_file\""@).unwrap())
        } else if eat_spec(s, i3, "\"error\""@) is Some {
            parse_resp_error(s, eat_spec(s, i3, "\"error\""@).unwrap())
        } else {
            None
        },
    }
}

// ---------------------------------------------------------------------------
// Executable parsers
// ---------------------------------------------------------------------------

/// Parses one request line into a request, or reports that the line
/// matches no request of the schema.
pub fn parse_request(line: &str) -> (r: Option<AgentRequest>)
    ensures
        match r {
            Some(req) => spec_parse_request(line@) == Some(req@),
            None => spec_parse_request(line@) is None,
        },
{
    let s = string_to_chars(line);
    let i1 = match crate::json::eat(&s, 0, "{") {
        None => { return None; },
        Some(j) => j,
    };
    let i2 = match crate::json::eat(&s, i1, "\"type\"") {
        None => { return None; },
        Some(j) => j,
    };
    let i3 = match crate::json::eat(&s, i2, ":") {
        None => { return None; },
        Some(j) => j,
    };
    if let Some(i4) = crate::json::eat(&s, i3, "\"ping\"") {
        if crate::json::scan_end(&s, i4) {
            Some(AgentRequest::Ping)
        } else {
            None
        }
    } else if let Some(i4) = crate::json::eat(&s, i3, "\"execute\"") {
        let i5 = match crate::json::eat(&s, i4, ",") {
            None => { return None; },
            Some(j) => j,
        };
        let (command, i6) = match crate::json::scan_field_str(&s, i5, "\"command\"") {
            None => { return None; },
            Some(p) => p,
        };
        let i7 = match crate::json::eat(&s, i6, ",") {
            None => { return None; },
            Some(j) => j,
        };
        let (workdir, i8) = match crate::json::scan_field_str(&s, i7, "\"workdir\"") {
            None => { return None; },
            Some(p) => p,
        };
        if crate::json::scan_end(&s, i8) {
            Some(AgentRequest::Execute {
                command: chars_to_string(&command),
                workdir: chars_to_string(&workdir),
            })
        } else {
            None
        }
    } else if let Some(i4) = crate::json::eat(&s, i3, "\"read_file\"") {
        let i5 = match crate::json::eat(&s, i4, ",") {
            None => { return None; },
            Some(j) => j,
        };
        let (path, i6) = match crate::json::scan_field_str(&s, i5, "\"path\"") {
            None => { return None; },
            Some(p) => p,
        };
        if crate::json::scan_end(&s, i6) {
            Some(AgentRequest::ReadFile { path: chars_to_string(&path) })
        } else {
            None
        }
    } else if let Some(i4) = crate::json::eat(&s, i3, "\"write_file\"") {
        let i5 = match crate::json::eat(&s, i4, ",") {
            None => { return None; },
            Some(j) => j,
        };
        let (path, i6) = match crate::json::scan_field_str(&s, i5, "\"path\"") {
            None => { return None; },
            Some(p) => p,
        };
        let i7 = match crate::json::eat(&s, i6, ",") {
            None => { return None; },
            Some(j) => j,
        };
        let (content, i8) = match crate::json::scan_field_str(&s, i7, "\"content\"") {
            None => { return None; },
            Some(p) => p,
        };
        if crate::json::scan_end(&s, i8) {
            Some(AgentRequest::WriteFile {
                path: chars_to_string(&path),
                content: chars_to_string(&content),
            })
        } else {
            None
        }
    } else {
        None
    }
}

/// Executable mirror of [`parse_field_int`], within `i64` range.
fn scan_field_i64(s: &Vec<char>, i: usize, key: &str) -> (r: Option<(i64, usize)>)
    requires
        i <= s.len(),
    ensures
        match r {
            Some(p) => parse_field_int(s@, i as int, key@) == Some((p.0 as int, p.1 as int)) && p.1
                <= s.len(),
            None => parse_field_int(s@, i as int, key@) is None || parse_field_int(
                s@,
                i as int,
                key@,
            ).unwrap().0 > i64::MAX || parse_field_int(s@, i as int, key@).unwrap().0 < i64::MIN,
        },
{
    match crate::json::eat(s, i, key) {
        None => None,
        Some(i1) => match crate::json::eat(s, i1, ":") {
            None => None,
            Some(i2) => {
                let j = crate::json::skip_ws(s, i2);
                match crate::json::scan_i64(s, j) {
                    None => None,
                    Some((n, k)) => {
                        proof {
                            crate::json::lemma_parse_int_bounds(s@, j as int);
                        }
                        Some((n, k))
                    },
                }
            },
        },
    }
}

/// Parses one response line into a response, or reports that the
/// line matches no response of the schema.
pub fn parse_response(line: &str) -> (r: Option<AgentResponse>)
    ensures
        match r {
            Some(resp) => spec_parse_response(line@) == Some(resp@),
            None => spec_parse_response(line@) is None,
        },
{
    let s = string_to_chars(line);
    let i1 = match crate::json::eat(&s, 0, "{") {
        None => { return None; },
        Some(j) => j,
    };
    let i2 = match crate::json::eat(&s, i1, "\"type\"") {
        None => { return None; },
        Some(j) => j,
    };
    let i3 = match crate::json::eat(&s, i2, ":") {
        None => { return None; },
        Some(j) => j,
    };
    if let Some(i4) = crate::json::eat(&s, i3, "\"pong\"") {
        if crate::json::scan_end(&s, i4) {
            Some(AgentResponse::Pong)
        } else {
            None
        }
    } else if let Some(i4) = crate::json::eat(&s, i3, "\"execute\"") {
        let i5 = match crate::json::eat(&s, i4, ",") {
            None => { return None; },
            Some(j) => j,
        };
        let (exit_code, i6) = match scan_field_i64(&s, i5, "\"exit_code\"") {
            None => { return None; },
            Some(p) => p,
        };
        let i7 = match crate::json::eat(&s, i6, ",") {
            None => { return None; },
            Some(j) => j,
        };
        let (stdout, i8) = match crate::json::scan_field_str(&s, i7, "\"stdout\"") {
            None => { return None; },
            Some(p) => p,
        };
        let i9 = match crate::json::eat(&s, i8, ",") {
            None => { return None; },
            Some(j) => j,
        };
        let (stderr, i10) = match crate::json::scan_field_str(&s, i9, "\"stderr\"") {
            None => { return None; },
            Some(p) => p,
        };
        if crate::json::scan_end(&s, i10) && -2147483648i64 <= exit_code && exit_code < 2147483648i64 {
            Some(AgentResponse::Execute {
                exit_code: exit_code as i32,
                stdout: chars_to_string(&stdout),
                stderr: chars_to_string(&stderr),
            })
        } else {
            None
        }
    } else if let Some(i4) = crate::json::eat(&s, i3, "\"read_file\"") {
        let i5 = match crate::json::eat(&s, i4, ",") {
            None => { return None; },
            Some(j) => j,
        };
        let (content, i6) = match crate::json::scan_field_str(&s, i5, "\"content\"") {
            None => { return None; },
            Some(p) => p,
        };
        if crate::json::scan_end(&s, i6) {
            Some(AgentResponse::ReadFile { content: chars_to_string(&content) })
        } else {
            None
        }
    } else if let Some(i4) = crate::json::eat(&s, i3, "\"write_file\"") {
        let i5 = match crate::json::eat(&s, i4, ",") {
            None => { return None; },
            Some(j) => j,
        };
        let (success, i6) = match crate::json::scan_field_bool(&s, i5, "\"success\"") {
            None => { return None; },
            Some(p) => p,
        };
        if crate::json::scan_end(&s, i6) {
            Some(AgentResponse::WriteFile { success })
        } else {
            None
        }
    } else if let Some(i4) = crate::json::eat(&s, i3, "\"error\"") {
        let i5 = match crate::json::eat(&s, i4, ",") {
            None => { return None; },
            Some(j) => j,
        };
        let (message, i6) = match crate::json::scan_field_str(&s, i5, "\"message\"") {
            None => { return None; },
            Some(p) => p,
        };
        if crate::json::scan_end(&s, i6) {
            Some(AgentResponse::Error { message: chars_to_string(&message) })
        } else {
            None
        }
    } else {
        None
    }
}

// ---------------------------------------------------------------------------
// The agent's decision on one line
// ---------------------------------------------------------------------------

/// What the agent does with one request line: answer at once, or
/// carry out the requested operation and answer with its outcome.
#[derive(Debug)]
pub enum RequestOutcome {
    /// The answer is already determined; write it back.
    Reply(AgentResponse),
    /// Perform this operation (a subprocess or a file access), then
    /// answer with its result.
    Perform(AgentRequest),
}

/// The rejection message for an unreadable request line.
pub open spec fn invalid_request_message() -> Seq<char> {
    "Invalid request: malformed or unrecognized request line"@
}

/// Decides one request line exactly as the agent's read loop does: a
/// `ping` is answered with `pong` on the spot, a malformed line with
/// an error whose message begins with `Invalid request`, and every
/// well-formed operation is handed on to be performed.
pub fn process_request(line: &str) -> (r: RequestOutcome)
    ensures
        spec_parse_request(line@) is None ==> (r matches RequestOutcome::Reply(resp) && resp@
            == (RespV::Error { message: invalid_request_message() })),
        spec_parse_request(line@) == Some(ReqV::Ping) ==> r == RequestOutcome::Reply(
            AgentResponse::Pong,
        ),
        (spec_parse_request(line@) is Some && spec_parse_request(line@) != Some(ReqV::Ping)) ==> (
        r matches RequestOutcome::Perform(req) && Some(req@) == spec_parse_request(line@)),
{
    match parse_request(line) {
        None => RequestOutcome::Reply(
            AgentResponse::Error {
                message: String::from_str(
                    "Invalid request: malformed or unrecognized request line",
                ),
            },
        ),
        Some(AgentRequest::Ping) => RequestOutcome::Reply(AgentResponse::Pong),
        Some(req) => RequestOutcome::Perform(req),
    }
}

/// The error message of a rejected line begins with
/// `Invalid request`, and every line the parser refuses is answered,
/// never dropped.
pub proof fn lemma_invalid_message_prefix()
    ensures
        invalid_request_message().len() >= "Invalid request"@.len(),
        invalid_request_message().subrange(0, "Invalid request"@.len() as int)
            == "Invalid request"@,
{
    reveal_strlit("Invalid request: malformed or unrecognized request line");
    reveal_strlit("Invalid request");
    assert(invalid_request_message().subrange(0, "Invalid request"@.len() as int)
        =~= "Invalid request"@);
}

// ---------------------------------------------------------------------------
// The host's reading of responses
// ---------------------------------------------------------------------------

/// Turns the agent's answer to an `execute` request into a command
/// result: the guest's exit code and output pass through verbatim,
/// an agent error surfaces as an execution failure, and any other
/// response shape is a transport fault.
pub fn interpret_execute_response(resp: AgentResponse) -> (r: Result<
    CommandResult,
    BashletError,
>)
    ensures
        match resp@ {
            RespV::Execute { exit_code, stdout, stderr } => r matches Ok(c) && c.exit_code as int
                == exit_code && c.stdout@ == stdout && c.stderr@ == stderr,
            RespV::Error { message } => r matches Err(BashletError::SandboxExecution(m)) && m@
                == "Agent error: "@ + message,
            _ => r matches Err(BashletError::VMCommunication(_)),
        },
{
    match resp {
        AgentResponse::Execute { exit_code, stdout, stderr } => Ok(
            CommandResult { stdout, stderr, exit_code },
        ),
        AgentResponse::Error { message } => Err(
            BashletError::SandboxExecution(
                String::from_str("Agent error: ").concat(message.as_str()),
            ),
        ),
        _ => Err(
            BashletError::VMCommunication(String::from_str("Unexpected response type")),
        ),
    }
}

/// Turns the agent's answer to a `read_file` request into the file's
/// content, an execution failure, or a transport fault.
pub fn interpret_read_file_response(resp: AgentResponse) -> (r: Result<String, BashletError>)
    ensures
        match resp@ {
            RespV::ReadFile { content } => r matches Ok(c) && c@ == content,
            RespV::Error { message } => r matches Err(BashletError::SandboxExecution(m)) && m@
                == "Failed to read file: "@ + message,
            _ => r matches Err(BashletError::VMCommunication(_)),
        },
{
    match resp {
        AgentResponse::ReadFile { content } => Ok(content),
        AgentResponse::Error { message } => Err(
            BashletError::SandboxExecution(
                String::from_str("Failed to read file: ").concat(message.as_str()),
            ),
        ),
        _ => Err(
            BashletError::VMCommunication(String::from_str("Unexpected response type")),
        ),
    }
}

/// Turns the agent's answer to a `write_file` request into success,
/// an execution failure, or a transport fault.
pub fn interpret_write_file_response(resp: AgentResponse) -> (r: Result<(), BashletError>)
    ensures
        match resp@ {
            RespV::WriteFile { success } => if success {
                r is Ok
            } else {
                r matches Err(BashletError::SandboxExecution(_))
            },
            RespV::Error { message } => r matches Err(BashletError::SandboxExecution(m)) && m@
                == "Failed to write file: "@ + message,
            _ => r matches Err(BashletError::VMCommunication(_)),
        },
{
    match resp {
        AgentResponse::WriteFile { success } => {
            if success {
                Ok(())
            } else {
                Err(BashletError::SandboxExecution(String::from_str("Failed to write file")))
            }
        },
        AgentResponse::Error { message } => Err(
            BashletError::SandboxExecution(
                String::from_str("Failed to write file: ").concat(message.as_str()),
            ),
        ),
        _ => Err(
            BashletError::VMCommunication(String::from_str("Unexpected response type")),
        ),
    }
}

// ---------------------------------------------------------------------------
// Round trips: the parsers invert the printers
// ---------------------------------------------------------------------------

/// Every printed request parses back to itself: the two ends of the
/// wire agree on every request.
pub proof fn lemma_request_roundtrip(r: ReqV)
    ensures
        spec_parse_request(spec_print_request(r)) == Some(r),
{
    match r {
        ReqV::Ping => lemma_rt_req_ping(),
        ReqV::Execute { command, workdir } => lemma_rt_req_execute(command, workdir),
        ReqV::ReadFile { path } => lemma_rt_req_read(path),
        ReqV::WriteFile { path, content } => lemma_rt_req_write(path, content),
    }
}

#[verifier::rlimit(100)]
proof fn lemma_rt_req_ping()
    ensures
        spec_parse_request(spec_print_request(ReqV::Ping)) == Some(ReqV::Ping),
{
    let s = spec_print_request(ReqV::Ping);
    reveal_strlit("{\"type\":\"ping\"}");
    reveal_strlit("{");
    reveal_strlit("\"type\"");
    reveal_strlit(":");
    reveal_strlit("\"ping\"");
    reveal_strlit("}");
    assert(s.len() == 15);
    assert(s.subrange(0, 1) =~= "{"@);
    crate::json::lemma_eat_at(s, 0, "{"@);
    assert(s.subrange(1, 7) =~= "\"type\""@);
    crate::json::lemma_eat_at(s, 1, "\"type\""@);
    assert(s.subrange(7, 8) =~= ":"@);
    crate::json::lemma_eat_at(s, 7, ":"@);
    assert(s.subrange(8, 14) =~= "\"ping\""@);
    crate::json::lemma_eat_at(s, 8, "\"ping\""@);
    assert(s.subrange(14, 15) =~= "}"@);
    crate::json::lemma_eat_at(s, 14, "}"@);
    assert(ws_end(s, 15) == 15);
    assert(parse_end(s, 14));
}

#[verifier::rlimit(100)]
proof fn lemma_rt_req_execute(a: Seq<char>, b: Seq<char>)
    ensures
        spec_parse_request(spec_print_request(ReqV::Execute { command: a, workdir: b })) == Some(
            ReqV::Execute { command: a, workdir: b },
        ),
{
    let l1 = "{\"type\":\"execute\",\"command\":"@;
    let l2 = ",\"workdir\":"@;
    let l3 = "}"@;
    let qa = quoted(a);
    let qb = quoted(b);
    let s = spec_print_request(ReqV::Execute { command: a, workdir: b });
    reveal_strlit("{\"type\":\"execute\",\"command\":");
    reveal_strlit(",\"workdir\":");
    reveal_strlit("}");
    reveal_strlit("{");
    reveal_strlit("\"type\"");
    reveal_strlit(":");
    reveal_strlit("\"ping\"");
    reveal_strlit("\"execute\"");
    reveal_strlit(",");
    reveal_strlit("\"command\"");
    reveal_strlit("\"workdir\"");
    assert(l1.len() == 28);
    assert(l2.len() == 11);
    assert(l3.len() == 1);
    assert(s == l1 + qa + l2 + qb + l3);
    let p1 = 28 + qa.len() as int;
    let p2 = p1 + 11;
    let p3 = p2 + qb.len() as int;
    assert(s.len() == p3 + 1);
    assert(s.subrange(0, 28) =~= l1);
    assert(s.subrange(28, p1) =~= qa);
    assert(s.subrange(p1, p2) =~= l2);
    assert(s.subrange(p2, p3) =~= qb);
    assert(s.subrange(p3, p3 + 1) =~= l3);
    crate::json::lemma_sub_at(s, 0, l1, 0, 1);
    assert(l1.subrange(0, 1) =~= "{"@);
    crate::json::lemma_eat_at(s, 0, "{"@);
    crate::json::lemma_sub_at(s, 0, l1, 1, 7);
    assert(l1.subrange(1, 7) =~= "\"type\""@);
    crate::json::lemma_eat_at(s, 1, "\"type\""@);
    crate::json::lemma_sub_at(s, 0, l1, 7, 8);
    assert(l1.subrange(7, 8) =~= ":"@);
    crate::json::lemma_eat_at(s, 7, ":"@);
    assert(s[8] == l1[8]);
    assert(ws_end(s, 8) == 8);
    assert(eat_spec(s, 8, "\"ping\""@) is None) by {
        if match_at(s, 8, "\"ping\""@) {
            assert(s.subrange(8, 14)[1] == "\"ping\""@[1]);
            assert(s[9] == l1[9]);
        }
    }
    crate::json::lemma_sub_at(s, 0, l1, 8, 17);
    assert(l1.subrange(8, 17) =~= "\"execute\""@);
    crate::json::lemma_eat_at(s, 8, "\"execute\""@);
    crate::json::lemma_sub_at(s, 0, l1, 17, 18);
    assert(l1.subrange(17, 18) =~= ","@);
    crate::json::lemma_eat_at(s, 17, ","@);
    crate::json::lemma_sub_at(s, 0, l1, 18, 27);
    assert(l1.subrange(18, 27) =~= "\"command\""@);
    crate::json::lemma_eat_at(s, 18, "\"command\""@);
    crate::json::lemma_sub_at(s, 0, l1, 27, 28);
    assert(l1.subrange(27, 28) =~= ":"@);
    crate::json::lemma_eat_at(s, 27, ":"@);
    crate::json::lemma_parse_quoted_at(s, 28, a);
    crate::json::lemma_sub_at(s, p1, l2, 0, 1);
    assert(l2.subrange(0, 1) =~= ","@);
    crate::json::lemma_eat_at(s, p1, ","@);
    crate::json::lemma_sub_at(s, p1, l2, 1, 10);
    assert(l2.subrange(1, 10) =~= "\"workdir\""@);
    crate::json::lemma_eat_at(s, p1 + 1, "\"workdir\""@);
    crate::json::lemma_sub_at(s, p1, l2, 10, 11);
    assert(l2.subrange(10, 11) =~= ":"@);
    crate::json::lemma_eat_at(s, p1 + 10, ":"@);
    crate::json::lemma_parse_quoted_at(s, p2, b);
    assert(l3.subrange(0, 1) =~= "}"@);
    crate::json::lemma_sub_at(s, p3, l3, 0, 1);
    crate::json::lemma_eat_at(s, p3, "}"@);
    assert(ws_end(s, p3 + 1) == s.len());
    assert(parse_end(s, p3));
}

#[verifier::rlimit(100)]
proof fn lemma_rt_req_read(a: Seq<char>)
    ensures
        spec_parse_request(spec_print_request(ReqV::ReadFile { path: a })) == Some(
            ReqV::ReadFile { path: a },
        ),
{
    let l1 = "{\"type\":\"read_file\",\"path\":"@;
    let l3 = "}"@;
    let qa = quoted(a);
    let s = spec_print_request(ReqV::ReadFile { path: a });
    reveal_strlit("{\"type\":\"read_file\",\"path\":");
    reveal_strlit("}");
    reveal_strlit("{");
    reveal_strlit("\"type\"");
    reveal_strlit(":");
    reveal_strlit("\"ping\"");
    reveal_strlit("\"execute\"");
    reveal_strlit("\"read_file\"");
    reveal_strlit(",");
    reveal_strlit("\"path\"");
    assert(l1.len() == 27);
    assert(s == l1 + qa + l3);
    let p3 = 27 + qa.len() as int;
    assert(s.len() == p3 + 1);
    assert(s.subrange(0, 27) =~= l1);
    assert(s.subrange(27, p3) =~= qa);
    assert(s.subrange(p3, p3 + 1) =~= l3);
    crate::json::lemma_sub_at(s, 0, l1, 0, 1);
    assert(l1.subrange(0, 1) =~= "{"@);
    crate::json::lemma_eat_at(s, 0, "{"@);
    crate::json::lemma_sub_at(s, 0, l1, 1, 7);
    assert(l1.subrange(1, 7) =~= "\"type\""@);
    crate::json::lemma_eat_at(s, 1, "\"type\""@);
    crate::json::lemma_sub_at(s, 0, l1, 7, 8);
    assert(l1.subrange(7, 8) =~= ":"@);
    crate::json::lemma_eat_at(s, 7, ":"@);
    assert(s[8] == l1[8]);
    assert(s[9] == l1[9]);
    assert(ws_end(s, 8) == 8);
    assert(eat_spec(s, 8, "\"ping\""@) is None) by {
        if match_at(s, 8, "\"ping\""@) {
            assert(s.subrange(8, 14)[1] == "\"ping\""@[1]);
        }
    }
    assert(eat_spec(s, 8, "\"execute\""@) is None) by {
        if match_at(s, 8, "\"execute\""@) {
            assert(s.subrange(8, 17)[1] == "\"execute\""@[1]);
        }
    }
    crate::json::lemma_sub_at(s, 0, l1, 8, 19);
    assert(l1.subrange(8, 19) =~= "\"read_file\""@);
    crate::json::lemma_eat_at(s, 8, "\"read_file\""@);
    crate::json::lemma_sub_at(s, 0, l1, 19, 20);
    assert(l1.subrange(19, 20) =~= ","@);
    crate::json::lemma_eat_at(s, 19, ","@);
    crate::json::lemma_sub_at(s, 0, l1, 20, 26);
    assert(l1.subrange(20, 26) =~= "\"path\""@);
    crate::json::lemma_eat_at(s, 20, "\"path\""@);
    crate::json::lemma_sub_at(s, 0, l1, 26, 27);
    assert(l1.subrange(26, 27) =~= ":"@);
    crate::json::lemma_eat_at(s, 26, ":"@);
    crate::json::lemma_parse_quoted_at(s, 27, a);
    assert(l3.subrange(0, 1) =~= "}"@);
    crate::json::lemma_sub_at(s, p3, l3, 0, 1);
    crate::json::lemma_eat_at(s, p3, "}"@);
    assert(ws_end(s, p3 + 1) == s.len());
    assert(parse_end(s, p3));
}

#[verifier::rlimit(100)]
proof fn lemma_rt_req_write(a: Seq<char>, b: Seq<char>)
    ensures
        spec_parse_request(spec_print_request(ReqV::WriteFile { path: a, content: b })) == Some(
            ReqV::WriteFile { path: a, content: b },
        ),
{
    let l1 = "{\"type\":\"write_file\",\"path\":"@;
    let l2 = ",\"content\":"@;
    let l3 = "}"@;
    let qa = quoted(a);
    let qb = quoted(b);
    let s = spec_print_request(ReqV::WriteFile { path: a, content: b });
    reveal_strlit("{\"type\":\"write_file\",\"path\":");
    reveal_strlit(",\"content\":");
    reveal_strlit("}");
    reveal_strlit("{");
    reveal_strlit("\"type\"");
    reveal_strlit(":");
    reveal_strlit("\"ping\"");
    reveal_strlit("\"execute\"");
    reveal_strlit("\"read_file\"");
    reveal_strlit("\"write_file\"");
    reveal_strlit(",");
    reveal_strlit("\"path\"");
    reveal_strlit("\"content\"");
    assert(l1.len() == 28);
    assert(l2.len() == 11);
    assert(s == l1 + qa + l2 + qb + l3);
    let p1 = 28 + qa.len() as int;
    let p2 = p1 + 11;
    let p3 = p2 + qb.len() as int;
    assert(s.len() == p3 + 1);
    assert(s.subrange(0, 28) =~= l1);
    assert(s.subrange(28, p1) =~= qa);
    assert(s.subrange(p1, p2) =~= l2);
    assert(s.subrange(p2, p3) =~= qb);
    assert(s.subrange(p3, p3 + 1) =~= l3);
    crate::json::lemma_sub_at(s, 0, l1, 0, 1);
    assert(l1.subrange(0, 1) =~= "{"@);
    crate::json::lemma_eat_at(s, 0, "{"@);
    crate::json::lemma_sub_at(s, 0, l1, 1, 7);
    assert(l1.subrange(1, 7) =~= "\"type\""@);
    crate::json::lemma_eat_at(s, 1, "\"type\""@);
    crate::json::lemma_sub_at(s, 0, l1, 7, 8);
    assert(l1.subrange(7, 8) =~= ":"@);
    crate::json::lemma_eat_at(s, 7, ":"@);
    assert(s[8] == l1[8]);
    assert(s[9] == l1[9]);
    assert(ws_end(s, 8) == 8);
    assert(eat_spec(s, 8, "\"ping\""@) is None) by {
        if match_at(s, 8, "\"ping\""@) {
            assert(s.subrange(8, 14)[1] == "\"ping\""@[1]);
        }
    }
    assert(eat_spec(s, 8, "\"execute\""@) is None) by {
        if match_at(s, 8, "\"execute\""@) {
            assert(s.subrange(8, 17)[1] == "\"execute\""@[1]);
        }
    }
    assert(eat_spec(s, 8, "\"read_file\""@) is None) by {
        if match_at(s, 8, "\"read_file\""@) {
            assert(s.subrange(8, 19)[1] == "\"read_file\""@[1]);
        }
    }
    crate::json::lemma_sub_at(s, 0, l1, 8, 20);
    assert(l1.subrange(8, 20) =~= "\"write_file\""@);
    crate::json::lemma_eat_at(s, 8, "\"write_file\""@);
    crate::json::lemma_sub_at(s, 0, l1, 20, 21);
    assert(l1.subrange(20, 21) =~= ","@);
    crate::json::lemma_eat_at(s, 20, ","@);
    crate::json::lemma_sub_at(s, 0, l1, 21, 27);
    assert(l1.subrange(21, 27) =~= "\"path\""@);
    crate::json::lemma_eat_at(s, 21, "\"path\""@);
    crate::json::lemma_sub_at(s, 0, l1, 27, 28);
    assert(l1.subrange(27, 28) =~= ":"@);
    crate::json::lemma_eat_at(s, 27, ":"@);
    crate::json::lemma_parse_quoted_at(s, 28, a);
    crate::json::lemma_sub_at(s, p1, l2, 0, 1);
    assert(l2.subrange(0, 1) =~= ","@);
    crate::json::lemma_eat_at(s, p1, ","@);
    crate::json::lemma_sub_at(s, p1, l2, 1, 10);
    assert(l2.subrange(1, 10) =~= "\"content\""@);
    crate::json::lemma_eat_at(s, p1 + 1, "\"content\""@);
    crate::json::lemma_sub_at(s, p1, l2, 10, 11);
    assert(l2.subrange(10, 11) =~= ":"@);
    crate::json::lemma_eat_at(s, p1 + 10, ":"@);
    crate::json::lemma_parse_quoted_at(s, p2, b);
    assert(l3.subrange(0, 1) =~= "}"@);
    crate::json::lemma_sub_at(s, p3, l3, 0, 1);
    crate::json::lemma_eat_at(s, p3, "}"@);
    assert(ws_end(s, p3 + 1) == s.len());
    assert(parse_end(s, p3));
}

/// Whether a response shape could have come from a real response
/// value: its exit code fits an `i32`.
pub open spec fn resp_wf(r: RespV) -> bool {
    match r {
        RespV::Execute { exit_code, .. } => -0x8000_0000 <= exit_code < 0x8000_0000,
        _ => true,
    }
}

/// Every printed response parses back to itself: the two ends of
/// the wire agree on every response.
pub proof fn lemma_response_roundtrip(r: RespV)
    requires
        resp_wf(r),
    ensures
        spec_parse_response(spec_print_response(r)) == Some(r),
{
    match r {
        RespV::Pong => lemma_rt_resp_pong(),
        RespV::Execute { exit_code, stdout, stderr } => lemma_rt_resp_execute(
            exit_code,
            stdout,
            stderr,
        ),
        RespV::ReadFile { content } => lemma_rt_resp_read(content),
        RespV::WriteFile { success } => lemma_rt_resp_write(success),
        RespV::Error { message } => lemma_rt_resp_error(message),
    }
}

#[verifier::rlimit(100)]
proof fn lemma_rt_resp_pong()
    ensures
        spec_parse_response(spec_print_response(RespV::Pong)) == Some(RespV::Pong),
{
    let s = spec_print_response(RespV::Pong);
    reveal_strlit("{\"type\":\"pong\"}");
    reveal_strlit("{");
    reveal_strlit("\"type\"");
    reveal_strlit(":");
    reveal_strlit("\"pong\"");
    reveal_strlit("}");
    assert(s.len() == 15);
    assert(s.subrange(0, 1) =~= "{"@);
    crate::json::lemma_eat_at(s, 0, "{"@);
    assert(s.subrange(1, 7) =~= "\"type\""@);
    crate::json::lemma_eat_at(s, 1, "\"type\""@);
    assert(s.subrange(7, 8) =~= ":"@);
    crate::json::lemma_eat_at(s, 7, ":"@);
    assert(s.subrange(8, 14) =~= "\"pong\""@);
    crate::json::lemma_eat_at(s, 8, "\"pong\""@);
    assert(s.subrange(14, 15) =~= "}"@);
    crate::json::lemma_eat_at(s, 14, "}"@);
    assert(ws_end(s, 15) == 15);
    assert(parse_end(s, 14));
}


proof fn lemma_rt_resp_execute_head(s: Seq<char>)
    requires
        s.len() >= 30,
        s.subrange(0, 30) == "{\"type\":\"execute\",\"exit_code\":"@,
    ensures
        parse_head(s) == Some(8int),
        eat_spec(s, 8, "\"pong\""@) is None,
        eat_spec(s, 8, "\"execute\""@) == Some(17int),
        eat_spec(s, 17, ","@) == Some(18int),
        eat_spec(s, 18, "\"exit_code\""@) == Some(29int),
        eat_spec(s, 29, ":"@) == Some(30int),
{
    let l1 = "{\"type\":\"execute\",\"exit_code\":"@;
    reveal_strlit("{\"type\":\"execute\",\"exit_code\":");
    reveal_strlit("{");
    reveal_strlit("\"type\"");
    reveal_strlit(":");
    reveal_strlit("\"pong\"");
    reveal_strlit("\"execute\"");
    reveal_strlit(",");
    reveal_strlit("\"exit_code\"");
    assert(l1.len() == 30);
    crate::json::lemma_sub_at(s, 0, l1, 0, 1);
    assert(l1.subrange(0, 1) =~= "{"@);
    crate::json::lemma_eat_at(s, 0, "{"@);
    crate::json::lemma_sub_at(s, 0, l1, 1, 7);
    assert(l1.subrange(1, 7) =~= "\"type\""@);
    crate::json::lemma_eat_at(s, 1, "\"type\""@);
    crate::json::lemma_sub_at(s, 0, l1, 7, 8);
    assert(l1.subrange(7, 8) =~= ":"@);
    crate::json::lemma_eat_at(s, 7, ":"@);
    assert(s[8] == l1[8]);
    assert(s[9] == l1[9]);
    assert(ws_end(s, 8) == 8);
    assert(eat_spec(s, 8, "\"pong\""@) is None) by {
        if match_at(s, 8, "\"pong\""@) {
            assert(s.subrange(8, 14)[1] == "\"pong\""@[1]);
        }
    }
    crate::json::lemma_sub_at(s, 0, l1, 8, 17);
    assert(l1.subrange(8, 17) =~= "\"execute\""@);
    crate::json::lemma_eat_at(s, 8, "\"execute\""@);
    crate::json::lemma_sub_at(s, 0, l1, 17, 18);
    assert(l1.subrange(17, 18) =~= ","@);
    crate::json::lemma_eat_at(s, 17, ","@);
    crate::json::lemma_sub_at(s, 0, l1, 18, 29);
    assert(l1.subrange(18, 29) =~= "\"exit_code\""@);
    crate::json::lemma_eat_at(s, 18, "\"exit_code\""@);
    crate::json::lemma_sub_at(s, 0, l1, 29, 30);
    assert(l1.subrange(29, 30) =~= ":"@);
    crate::json::lemma_eat_at(s, 29, ":"@);
}

#[verifier::rlimit(100)]
proof fn lemma_rt_resp_execute(n: int, a: Seq<char>, b: Seq<char>)
    requires
        -0x8000_0000 <= n < 0x8000_0000,
    ensures
        spec_parse_response(
            spec_print_response(RespV::Execute { exit_code: n, stdout: a, stderr: b }),
        ) == Some(RespV::Execute { exit_code: n, stdout: a, stderr: b }),
{
    let l1 = "{\"type\":\"execute\",\"exit_code\":"@;
    let l2 = ",\"stdout\":"@;
    let l3 = ",\"stderr\":"@;
    let l4 = "}"@;
    let d = dec_signed(n);
    let qa = quoted(a);
    let qb = quoted(b);
    let s = spec_print_response(RespV::Execute { exit_code: n, stdout: a, stderr: b });
    reveal_strlit("{\"type\":\"execute\",\"exit_code\":");
    reveal_strlit(",\"stdout\":");
    reveal_strlit(",\"stderr\":");
    reveal_strlit("}");
    reveal_strlit("{");
    reveal_strlit("\"type\"");
    reveal_strlit(":");
    reveal_strlit("\"pong\"");
    reveal_strlit("\"execute\"");
    reveal_strlit(",");
    reveal_strlit("\"exit_code\"");
    reveal_strlit("\"stdout\"");
    reveal_strlit("\"stderr\"");
    assert(l1.len() == 30);
    assert(l2.len() == 10);
    assert(l3.len() == 10);
    assert(s == l1 + d + l2 + qa + l3 + qb + l4);
    let p1 = 30 + d.len() as int;
    let p2 = p1 + 10 + qa.len() as int;
    let p3 = p2 + 10 + qb.len() as int;
    assert(s.len() == p3 + 1);
    let h1 = l1 + d;
    let h2 = h1 + l2;
    let h3 = h2 + qa;
    let h4 = h3 + l3;
    let h5 = h4 + qb;
    assert(s == h5 + l4);
    crate::json::lemma_suffix_of_concat(s, h5, l4);
    assert(s.subrange(p3, p3 + 1) == l4);
    crate::json::lemma_suffix_of_concat(h5, h4, qb);
    crate::json::lemma_subrange_of_prefix(s, h5, l4, p2 + 10, p3);
    assert(s.subrange(p2 + 10, p2 + 10 + qb.len() as int) == qb);
    crate::json::lemma_suffix_of_concat(h4, h3, l3);
    crate::json::lemma_subrange_of_prefix(h5, h4, qb, p2, p2 + 10);
    crate::json::lemma_subrange_of_prefix(s, h5, l4, p2, p2 + 10);
    assert(s.subrange(p2, p2 + 10) == l3);
    crate::json::lemma_suffix_of_concat(h3, h2, qa);
    crate::json::lemma_subrange_of_prefix(h4, h3, l3, p1 + 10, p2);
    crate::json::lemma_subrange_of_prefix(h5, h4, qb, p1 + 10, p2);
    crate::json::lemma_subrange_of_prefix(s, h5, l4, p1 + 10, p2);
    assert(s.subrange(p1 + 10, p1 + 10 + qa.len() as int) == qa);
    crate::json::lemma_suffix_of_concat(h2, h1, l2);
    crate::json::lemma_subrange_of_prefix(h3, h2, qa, p1, p1 + 10);
    crate::json::lemma_subrange_of_prefix(h4, h3, l3, p1, p1 + 10);
    crate::json::lemma_subrange_of_prefix(h5, h4, qb, p1, p1 + 10);
    crate::json::lemma_subrange_of_prefix(s, h5, l4, p1, p1 + 10);
    assert(s.subrange(p1, p1 + 10) == l2);
    crate::json::lemma_suffix_of_concat(h1, l1, d);
    crate::json::lemma_subrange_of_prefix(h2, h1, l2, 30, p1);
    crate::json::lemma_subrange_of_prefix(h3, h2, qa, 30, p1);
    crate::json::lemma_subrange_of_prefix(h4, h3, l3, 30, p1);
    crate::json::lemma_subrange_of_prefix(h5, h4, qb, 30, p1);
    crate::json::lemma_subrange_of_prefix(s, h5, l4, 30, p1);
    assert(s.subrange(30, p1) == d);
    crate::json::lemma_subrange_of_prefix(h1, l1, d, 0, 30);
    crate::json::lemma_subrange_of_prefix(h2, h1, l2, 0, 30);
    crate::json::lemma_subrange_of_prefix(h3, h2, qa, 0, 30);
    crate::json::lemma_subrange_of_prefix(h4, h3, l3, 0, 30);
    crate::json::lemma_subrange_of_prefix(h5, h4, qb, 0, 30);
    crate::json::lemma_subrange_of_prefix(s, h5, l4, 0, 30);
    assert(s.subrange(0, 30) == l1);
    assert(l1.subrange(0, 30) =~= l1);
    lemma_rt_resp_execute_head(s);
    // the number: no whitespace before it, digits end at the comma
    assert(s[30] == d[0]);
    assert(!is_ws(d[0])) by {
        if n >= 0 {
            crate::json::lemma_dec_digits_are_digits(n as nat);
        }
    }
    assert(ws_end(s, 30) == 30);
    assert(s[p1] == l2[0]);
    assert(!crate::json::is_dec_digit(s[p1]));
    crate::json::lemma_parse_dec_signed(s, n, 30);
    crate::json::lemma_sub_at(s, p1, l2, 0, 1);
    assert(l2.subrange(0, 1) =~= ","@);
    crate::json::lemma_eat_at(s, p1, ","@);
    crate::json::lemma_sub_at(s, p1, l2, 1, 9);
    assert(l2.subrange(1, 9) =~= "\"stdout\""@);
    crate::json::lemma_eat_at(s, p1 + 1, "\"stdout\""@);
    crate::json::lemma_sub_at(s, p1, l2, 9, 10);
    assert(l2.subrange(9, 10) =~= ":"@);
    crate::json::lemma_eat_at(s, p1 + 9, ":"@);
    crate::json::lemma_parse_quoted_at(s, p1 + 10, a);
    crate::json::lemma_sub_at(s, p2, l3, 0, 1);
    assert(l3.subrange(0, 1) =~= ","@);
    crate::json::lemma_eat_at(s, p2, ","@);
    crate::json::lemma_sub_at(s, p2, l3, 1, 9);
    assert(l3.subrange(1, 9) =~= "\"stderr\""@);
    crate::json::lemma_eat_at(s, p2 + 1, "\"stderr\""@);
    crate::json::lemma_sub_at(s, p2, l3, 9, 10);
    assert(l3.subrange(9, 10) =~= ":"@);
    crate::json::lemma_eat_at(s, p2 + 9, ":"@);
    crate::json::lemma_parse_quoted_at(s, p2 + 10, b);
    assert(l4.subrange(0, 1) =~= "}"@);
    crate::json::lemma_sub_at(s, p3, l4, 0, 1);
    crate::json::lemma_eat_at(s, p3, "}"@);
    assert(ws_end(s, p3 + 1) == s.len());
    assert(parse_end(s, p3));
}

#[verifier::rlimit(100)]
proof fn lemma_rt_resp_read(a: Seq<char>)
    ensures
        spec_parse_response(spec_print_response(RespV::ReadFile { content: a })) == Some(
            RespV::ReadFile { content: a },
        ),
{
    let l1 = "{\"type\":\"read_file\",\"content\":"@;
    let l3 = "}"@;
    let qa = quoted(a);
    let s = spec_print_response(RespV::ReadFile { content: a });
    reveal_strlit("{\"type\":\"read_file\",\"content\":");
    reveal_strlit("}");
    reveal_strlit("{");
    reveal_strlit("\"type\"");
    reveal_strlit(":");
    reveal_strlit("\"pong\"");
    reveal_strlit("\"execute\"");
    reveal_strlit("\"read_file\"");
    reveal_strlit(",");
    reveal_strlit("\"content\"");
    assert(l1.len() == 30);
    assert(s == l1 + qa + l3);
    let p3 = 30 + qa.len() as int;
    assert(s.len() == p3 + 1);
    assert(s.subrange(0, 30) =~= l1);
    assert(s.subrange(30, p3) =~= qa);
    assert(s.subrange(p3, p3 + 1) =~= l3);
    crate::json::lemma_sub_at(s, 0, l1, 0, 1);
    assert(l1.subrange(0, 1) =~= "{"@);
    crate::json::lemma_eat_at(s, 0, "{"@);
    crate::json::lemma_sub_at(s, 0, l1, 1, 7);
    assert(l1.subrange(1, 7) =~= "\"type\""@);
    crate::json::lemma_eat_at(s, 1, "\"type\""@);
    crate::json::lemma_sub_at(s, 0, l1, 7, 8);
    assert(l1.subrange(7, 8) =~= ":"@);
    crate::json::lemma_eat_at(s, 7, ":"@);
    assert(s[8] == l1[8]);
    assert(s[9] == l1[9]);
    assert(ws_end(s, 8) == 8);
    assert(eat_spec(s, 8, "\"pong\""@) is None) by {
        if match_at(s, 8, "\"pong\""@) {
            assert(s.subrange(8, 14)[1] == "\"pong\""@[1]);
        }
    }
    assert(eat_spec(s, 8, "\"execute\""@) is None) by {
        if match_at(s, 8, "\"execute\""@) {
            assert(s.subrange(8, 17)[1] == "\"execute\""@[1]);
        }
    }
    crate::json::lemma_sub_at(s, 0, l1, 8, 19);
    assert(l1.subrange(8, 19) =~= "\"read_file\""@);
    crate::json::lemma_eat_at(s, 8, "\"read_file\""@);
    crate::json::lemma_sub_at(s, 0, l1, 19, 20);
    assert(l1.subrange(19, 20) =~= ","@);
    crate::json::lemma_eat_at(s, 19, ","@);
    crate::json::lemma_sub_at(s, 0, l1, 20, 29);
    assert(l1.subrange(20, 29) =~= "\"content\""@);
    crate::json::lemma_eat_at(s, 20, "\"content\""@);
    crate::json::lemma_sub_at(s, 0, l1, 29, 30);
    assert(l1.subrange(29, 30) =~= ":"@);
    crate::json::lemma_eat_at(s, 29, ":"@);
    crate::json::lemma_parse_quoted_at(s, 30, a);
    assert(l3.subrange(0, 1) =~= "}"@);
    crate::json::lemma_sub_at(s, p3, l3, 0, 1);
    crate::json::lemma_eat_at(s, p3, "}"@);
    assert(ws_end(s, p3 + 1) == s.len());
    assert(parse_end(s, p3));
}


proof fn lemma_rt_resp_write_head(s: Seq<char>)
    requires
        s.len() >= 31,
        s.subrange(0, 31) == "{\"type\":\"write_file\",\"success\":"@,
    ensures
        parse_head(s) == Some(8int),
        eat_spec(s, 8, "\"pong\""@) is None,
        eat_spec(s, 8, "\"execute\""@) is None,
        eat_spec(s, 8, "\"read_file\""@) is None,
        eat_spec(s, 8, "\"write_file\""@) == Some(20int),
        eat_spec(s, 20, ","@) == Some(21int),
        eat_spec(s, 21, "\"success\""@) == Some(30int),
        eat_spec(s, 30, ":"@) == Some(31int),
{
    let l1 = "{\"type\":\"write_file\",\"success\":"@;
    reveal_strlit("{\"type\":\"write_file\",\"success\":");
    reveal_strlit("{");
    reveal_strlit("\"type\"");
    reveal_strlit(":");
    reveal_strlit("\"pong\"");
    reveal_strlit("\"execute\"");
    reveal_strlit("\"read_file\"");
    reveal_strlit("\"write_file\"");
    reveal_strlit(",");
    reveal_strlit("\"success\"");
    assert(l1.len() == 31);
    crate::json::lemma_sub_at(s, 0, l1, 0, 1);
    assert(l1.subrange(0, 1) =~= "{"@);
    crate::json::lemma_eat_at(s, 0, "{"@);
    crate::json::lemma_sub_at(s, 0, l1, 1, 7);
    assert(l1.subrange(1, 7) =~= "\"type\""@);
    crate::json::lemma_eat_at(s, 1, "\"type\""@);
    crate::json::lemma_sub_at(s, 0, l1, 7, 8);
    assert(l1.subrange(7, 8) =~= ":"@);
    crate::json::lemma_eat_at(s, 7, ":"@);
    assert(s[8] == l1[8]);
    assert(s[9] == l1[9]);
    assert(ws_end(s, 8) == 8);
    assert(eat_spec(s, 8, "\"pong\""@) is None) by {
        if match_at(s, 8, "\"pong\""@) {
            assert(s.subrange(8, 14)[1] == "\"pong\""@[1]);
        }
    }
    assert(eat_spec(s, 8, "\"execute\""@) is None) by {
        if match_at(s, 8, "\"execute\""@) {
            assert(s.subrange(8, 17)[1] == "\"execute\""@[1]);
        }
    }
    assert(eat_spec(s, 8, "\"read_file\""@) is None) by {
        if match_at(s, 8, "\"read_file\""@) {
            assert(s.subrange(8, 19)[1] == "\"read_file\""@[1]);
        }
    }
    crate::json::lemma_sub_at(s, 0, l1, 8, 20);
    assert(l1.subrange(8, 20) =~= "\"write_file\""@);
    crate::json::lemma_eat_at(s, 8, "\"write_file\""@);
    crate::json::lemma_sub_at(s, 0, l1, 20, 21);
    assert(l1.subrange(20, 21) =~= ","@);
    crate::json::lemma_eat_at(s, 20, ","@);
    crate::json::lemma_sub_at(s, 0, l1, 21, 30);
    assert(l1.subrange(21, 30) =~= "\"success\""@);
    crate::json::lemma_eat_at(s, 21, "\"success\""@);
    crate::json::lemma_sub_at(s, 0, l1, 30, 31);
    assert(l1.subrange(30, 31) =~= ":"@);
    crate::json::lemma_eat_at(s, 30, ":"@);
}

#[verifier::rlimit(100)]
proof fn lemma_rt_resp_write(success: bool)
    ensures
        spec_parse_response(spec_print_response(RespV::WriteFile { success })) == Some(
            RespV::WriteFile { success },
        ),
{
    let l1 = "{\"type\":\"write_file\",\"success\":"@;
    let l3 = "}"@;
    let tl = if success {
        "true"@
    } else {
        "false"@
    };
    let s = spec_print_response(RespV::WriteFile { success });
    reveal_strlit("{\"type\":\"write_file\",\"success\":");
    reveal_strlit("}");
    reveal_strlit("{");
    reveal_strlit("\"type\"");
    reveal_strlit(":");
    reveal_strlit("\"pong\"");
    reveal_strlit("\"execute\"");
    reveal_strlit("\"read_file\"");
    reveal_strlit("\"write_file\"");
    reveal_strlit(",");
    reveal_strlit("\"success\"");
    reveal_strlit("true");
    reveal_strlit("false");
    assert(l1.len() == 31);
    assert(s == l1 + tl + l3);
    let p3 = 31 + tl.len() as int;
    assert(s.len() == p3 + 1);
    assert(s.subrange(0, 31) =~= l1);
    assert(s.subrange(31, p3) =~= tl);
    assert(s.subrange(p3, p3 + 1) =~= l3);
    lemma_rt_resp_write_head(s);
    if success {
        crate::json::lemma_eat_at(s, 31, "true"@);
    } else {
        assert(s[31] == tl[0]);
        assert(ws_end(s, 31) == 31);
        assert(eat_spec(s, 31, "true"@) is None) by {
            if match_at(s, 31, "true"@) {
                assert(s.subrange(31, 35)[0] == "true"@[0]);
            }
        }
        crate::json::lemma_eat_at(s, 31, "false"@);
    }
    assert(l3.subrange(0, 1) =~= "}"@);
    crate::json::lemma_sub_at(s, p3, l3, 0, 1);
    crate::json::lemma_eat_at(s, p3, "}"@);
    assert(ws_end(s, p3 + 1) == s.len());
    assert(parse_end(s, p3));
}

#[verifier::rlimit(100)]
proof fn lemma_rt_resp_error(a: Seq<char>)
    ensures
        spec_parse_response(spec_print_response(RespV::Error { message: a })) == Some(
            RespV::Error { message: a },
        ),
{
    let l1 = "{\"type\":\"error\",\"message\":"@;
    let l3 = "}"@;
    let qa = quoted(a);
    let s = spec_print_response(RespV::Error { message: a });
    reveal_strlit("{\"type\":\"error\",\"message\":");
    reveal_strlit("}");
    reveal_strlit("{");
    reveal_strlit("\"type\"");
    reveal_strlit(":");
    reveal_strlit("\"pong\"");
    reveal_strlit("\"execute\"");
    reveal_strlit("\"read_file\"");
    reveal_strlit("\"write_file\"");
    reveal_strlit("\"error\"");
    reveal_strlit(",");
    reveal_strlit("\"message\"");
    assert(l1.len() == 26);
    assert(s == l1 + qa + l3);
    let p3 = 26 + qa.len() as int;
    assert(s.len() == p3 + 1);
    assert(s.subrange(0, 26) =~= l1);
    assert(s.subrange(26, p3) =~= qa);
    assert(s.subrange(p3, p3 + 1) =~= l3);
    crate::json::lemma_sub_at(s, 0, l1, 0, 1);
    assert(l1.subrange(0, 1) =~= "{"@);
    crate::json::lemma_eat_at(s, 0, "{"@);
    crate::json::lemma_sub_at(s, 0, l1, 1, 7);
    assert(l1.subrange(1, 7) =~= "\"type\""@);
    crate::json::lemma_eat_at(s, 1, "\"type\""@);
    crate::json::lemma_sub_at(s, 0, l1, 7, 8);
    assert(l1.subrange(7, 8) =~= ":"@);
    crate::json::lemma_eat_at(s, 7, ":"@);
    assert(s[8] == l1[8]);
    assert(s[9] == l1[9]);
    assert(s[10] == l1[10]);
    assert(ws_end(s, 8) == 8);
    assert(eat_spec(s, 8, "\"pong\""@) is None) by {
        if match_at(s, 8, "\"pong\""@) {
            assert(s.subrange(8, 14)[1] == "\"pong\""@[1]);
        }
    }
    assert(eat_spec(s, 8, "\"execute\""@) is None) by {
        if match_at(s, 8, "\"execute\""@) {
            assert(s.subrange(8, 17)[2] == "\"execute\""@[2]);
        }
    }
    assert(eat_spec(s, 8, "\"read_file\""@) is None) by {
        if match_at(s, 8, "\"read_file\""@) {
            assert(s.subrange(8, 19)[1] == "\"read_file\""@[1]);
        }
    }
    assert(eat_spec(s, 8, "\"write_file\""@) is None) by {
        if match_at(s, 8, "\"write_file\""@) {
            assert(s.subrange(8, 20)[1] == "\"write_file\""@[1]);
        }
    }
    crate::json::lemma_sub_at(s, 0, l1, 8, 15);
    assert(l1.subrange(8, 15) =~= "\"error\""@);
    crate::json::lemma_eat_at(s, 8, "\"error\""@);
    crate::json::lemma_sub_at(s, 0, l1, 15, 16);
    assert(l1.subrange(15, 16) =~= ","@);
    crate::json::lemma_eat_at(s, 15, ","@);
    crate::json::lemma_sub_at(s, 0, l1, 16, 25);
    assert(l1.subrange(16, 25) =~= "\"message\""@);
    crate::json::lemma_eat_at(s, 16, "\"message\""@);
    crate::json::lemma_sub_at(s, 0, l1, 25, 26);
    assert(l1.subrange(25, 26) =~= ":"@);
    crate::json::lemma_eat_at(s, 25, ":"@);
    crate::json::lemma_parse_quoted_at(s, 26, a);
    assert(l3.subrange(0, 1) =~= "}"@);
    crate::json::lemma_sub_at(s, p3, l3, 0, 1);
    crate::json::lemma_eat_at(s, p3, "}"@);
    assert(ws_end(s, p3 + 1) == s.len());
    assert(parse_end(s, p3));
}

/// Text without a newline, the property that keeps one message per
/// line.
pub open spec fn newline_free(s: Seq<char>) -> bool {
    forall|k: int| 0 <= k < s.len() ==> s[k] != '\n'
}

proof fn lemma_newline_free_concat(a: Seq<char>, b: Seq<char>)
    requires
        newline_free(a),
        newline_free(b),
    ensures
        newline_free(a + b),
{
    assert forall|k: int| 0 <= k < (a + b).len() implies (a + b)[k] != '\n' by {
        if k < a.len() {
            assert((a + b)[k] == a[k]);
        } else {
            assert((a + b)[k] == b[k - a.len()]);
        }
    }
}

proof fn lemma_newline_free_quoted(v: Seq<char>)
    ensures
        newline_free(quoted(v)),
{
    crate::json::lemma_escape_str_no_newline(v);
    assert forall|k: int| 0 <= k < quoted(v).len() implies quoted(v)[k] != '\n' by {
        let e = crate::json::escape_str(v);
        if k == 0 {
            assert(quoted(v)[0] == '"');
        } else if k <= e.len() {
            assert(quoted(v)[k] == e[k - 1]);
        } else {
            assert(quoted(v)[k] == '"');
        }
    }
}

proof fn lemma_newline_free_dec_signed(n: int)
    ensures
        newline_free(dec_signed(n)),
{
    if n < 0 {
        crate::json::lemma_dec_digits_are_digits((-n) as nat);
        let d = crate::strconv::dec_digits((-n) as nat);
        assert forall|k: int| 0 <= k < dec_signed(n).len() implies dec_signed(n)[k] != '\n' by {
            if k == 0 {
                assert(dec_signed(n)[0] == '-');
            } else {
                assert(dec_signed(n)[k] == d[k - 1]);
                assert(crate::json::is_dec_digit(d[k - 1]));
            }
        }
    } else {
        crate::json::lemma_dec_digits_are_digits(n as nat);
        assert forall|k: int| 0 <= k < dec_signed(n).len() implies dec_signed(n)[k] != '\n' by {
            assert(crate::json::is_dec_digit(dec_signed(n)[k]));
        }
    }
}

/// Every printed request is one line: the wire form never holds a
/// newline, whatever the request carries.
pub proof fn lemma_request_one_line(r: ReqV)
    ensures
        newline_free(spec_print_request(r)),
{
    reveal_strlit("{\"type\":\"execute\",\"command\":");
    reveal_strlit(",\"workdir\":");
    reveal_strlit("{\"type\":\"read_file\",\"path\":");
    reveal_strlit("{\"type\":\"write_file\",\"path\":");
    reveal_strlit(",\"content\":");
    reveal_strlit("{\"type\":\"ping\"}");
    reveal_strlit("}");
    match r {
        ReqV::Ping => {},
        ReqV::Execute { command, workdir } => {
            lemma_newline_free_quoted(command);
            lemma_newline_free_quoted(workdir);
            lemma_newline_free_concat("{\"type\":\"execute\",\"command\":"@, quoted(command));
            lemma_newline_free_concat(
                "{\"type\":\"execute\",\"command\":"@ + quoted(command),
                ",\"workdir\":"@,
            );
            lemma_newline_free_concat(
                "{\"type\":\"execute\",\"command\":"@ + quoted(command) + ",\"workdir\":"@,
                quoted(workdir),
            );
            lemma_newline_free_concat(
                "{\"type\":\"execute\",\"command\":"@ + quoted(command) + ",\"workdir\":"@
                    + quoted(workdir),
                "}"@,
            );
        },
        ReqV::ReadFile { path } => {
            lemma_newline_free_quoted(path);
            lemma_newline_free_concat("{\"type\":\"read_file\",\"path\":"@, quoted(path));
            lemma_newline_free_concat(
                "{\"type\":\"read_file\",\"path\":"@ + quoted(path),
                "}"@,
            );
        },
        ReqV::WriteFile { path, content } => {
            lemma_newline_free_quoted(path);
            lemma_newline_free_quoted(content);
            lemma_newline_free_concat("{\"type\":\"write_file\",\"path\":"@, quoted(path));
            lemma_newline_free_concat(
                "{\"type\":\"write_file\",\"path\":"@ + quoted(path),
                ",\"content\":"@,
            );
            lemma_newline_free_concat(
                "{\"type\":\"write_file\",\"path\":"@ + quoted(path) + ",\"content\":"@,
                quoted(content),
            );
            lemma_newline_free_concat(
                "{\"type\":\"write_file\",\"path\":"@ + quoted(path) + ",\"content\":"@ + quoted(
                    content,
                ),
                "}"@,
            );
        },
    }
}

/// Every printed response is one line: the wire form never holds a
/// newline, whatever the response carries.
pub proof fn lemma_response_one_line(r: RespV)
    ensures
        newline_free(spec_print_response(r)),
{
    reveal_strlit("{\"type\":\"execute\",\"exit_code\":");
    reveal_strlit(",\"stdout\":");
    reveal_strlit(",\"stderr\":");
    reveal_strlit("{\"type\":\"read_file\",\"content\":");
    reveal_strlit("{\"type\":\"write_file\",\"success\":");
    reveal_strlit("{\"type\":\"error\",\"message\":");
    reveal_strlit("{\"type\":\"pong\"}");
    reveal_strlit("true");
    reveal_strlit("false");
    reveal_strlit("}");
    match r {
        RespV::Pong => {},
        RespV::Execute { exit_code, stdout, stderr } => {
            lemma_newline_free_dec_signed(exit_code);
            lemma_newline_free_quoted(stdout);
            lemma_newline_free_quoted(stderr);
            let p1 = "{\"type\":\"execute\",\"exit_code\":"@ + dec_signed(exit_code);
            lemma_newline_free_concat("{\"type\":\"execute\",\"exit_code\":"@, dec_signed(exit_code));
            lemma_newline_free_concat(p1, ",\"stdout\":"@);
            lemma_newline_free_concat(p1 + ",\"stdout\":"@, quoted(stdout));
            lemma_newline_free_concat(p1 + ",\"stdout\":"@ + quoted(stdout), ",\"stderr\":"@);
            lemma_newline_free_concat(
                p1 + ",\"stdout\":"@ + quoted(stdout) + ",\"stderr\":"@,
                quoted(stderr),
            );
            lemma_newline_free_concat(
                p1 + ",\"stdout\":"@ + quoted(stdout) + ",\"stderr\":"@ + quoted(stderr),
                "}"@,
            );
        },
        RespV::ReadFile { content } => {
            lemma_newline_free_quoted(content);
            lemma_newline_free_concat("{\"type\":\"read_file\",\"content\":"@, quoted(content));
            lemma_newline_free_concat(
                "{\"type\":\"read_file\",\"content\":"@ + quoted(content),
                "}"@,
            );
        },
        RespV::WriteFile { success } => {
            let t = if success {
                "true"@
            } else {
                "false"@
            };
            lemma_newline_free_concat("{\"type\":\"write_file\",\"success\":"@, t);
            lemma_newline_free_concat("{\"type\":\"write_file\",\"success\":"@ + t, "}"@);
        },
        RespV::Error { message } => {
            lemma_newline_free_quoted(message);
            lemma_newline_free_concat("{\"type\":\"error\",\"message\":"@, quoted(message));
            lemma_newline_free_concat(
                "{\"type\":\"error\",\"message\":"@ + quoted(message),
                "}"@,
            );
        },
    }
}

/// Whether the agent's answer to a `ping` is the expected `pong`.
pub fn interpret_ping_response(resp: &AgentResponse) -> (r: bool)
    ensures
        r == (resp@ is Pong),
{
    match resp {
        AgentResponse::Pong => true,
        _ => false,
    }
}

} // verus!
