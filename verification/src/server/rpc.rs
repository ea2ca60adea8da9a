//! What a client and the server say to each other in MessagePack.

use vstd::prelude::*;

use super::frame::encode_frame;
#[allow(unused_imports)]
use super::frame::framed;
use crate::text::{concat, owned, str_eq};
#[allow(unused_imports)]
use crate::text::{decimal, digit_char, opt_str, opt_text};
use crate::types::Progress;

verus! {

/// The kind of a message that asks for something.
pub const MSG_REQUEST: u32 = 0;

/// The kind of a message that answers a request.
pub const MSG_RESPONSE: u32 = 1;

/// The kind of a message that nobody asked for.
pub const MSG_NOTIFICATION: u32 = 2;

/// The number of the one request that the command line client makes.
pub const DEFAULT_MSG_ID: u64 = 1;

// ---------------------------------------------------------------------------
// MessagePack
// ---------------------------------------------------------------------------
/// What `rmp_serde::from_slice` reads in a request: its kind, its number, the name
/// of the method and the parameters as JSON text; or what it says is wrong.
pub uninterp spec fn request_parts(frame: Seq<u8>) -> Result<
    (u32, u64, Seq<char>, Seq<char>),
    Seq<char>,
>;

/// The view of what was read in a request.
pub open spec fn request_view(r: Result<(u32, u64, String, String), String>) -> Result<
    (u32, u64, Seq<char>, Seq<char>),
    Seq<char>,
> {
    match r {
        Ok((kind, id, method, params)) => Ok((kind, id, method@, params@)),
        Err(e) => Err(e@),
    }
}

/// `rmp_serde::from_slice` on a tuple of a `u32`, a `u64`, a `String` and a
/// `serde_json::Value`: what a request holds, with the value as `serde_json` writes
/// it on one line. The result, and the text of an error, depend on the bytes alone.
#[verifier::external_body]
fn decode_request(frame: &[u8]) -> (r: Result<(u32, u64, String, String), String>)
    ensures
        request_view(r) == request_parts(frame@),
{
    match rmp_serde::from_slice::<(u32, u64, String, serde_json::Value)>(frame) {
        Ok((kind, id, method, params)) => Ok((kind, id, method, params.to_string())),
        Err(e) => Err(e.to_string()),
    }
}

/// What `rmp_serde::from_slice` reads in a message: for each of its parts the JSON
/// text on one line, and the JSON text with a line for each entry; or what it says
/// is wrong.
pub uninterp spec fn message_parts(frame: Seq<u8>) -> Result<
    Seq<(Seq<char>, Seq<char>)>,
    Seq<char>,
>;

/// The view of the parts of a message.
pub open spec fn parts_view(v: Seq<(String, String)>) -> Seq<(Seq<char>, Seq<char>)> {
    v.map_values(|p: (String, String)| (p.0@, p.1@))
}

/// The view of what was read in a message.
pub open spec fn message_view(r: Result<Vec<(String, String)>, String>) -> Result<
    Seq<(Seq<char>, Seq<char>)>,
    Seq<char>,
> {
    match r {
        Ok(v) => Ok(parts_view(v@)),
        Err(e) => Err(e@),
    }
}

/// `rmp_serde::from_slice` on a list of `serde_json::Value`: the parts of a
/// message, each as `serde_json` writes it on one line and over several. The
/// result, and the text of an error, depend on the bytes alone.
#[verifier::external_body]
fn decode_message(frame: &[u8]) -> (r: Result<Vec<(String, String)>, String>)
    ensures
        message_view(r) == message_parts(frame@),
{
    match rmp_serde::from_slice::<Vec<serde_json::Value>>(frame) {
        Ok(parts) => Ok(parts.iter().map(|v| (v.to_string(), format!("{:#}", v))).collect()),
        Err(e) => Err(e.to_string()),
    }
}

/// What `rmp_serde::encode::write` writes for a kind, a number, a text or nil, and
/// the value of a JSON text or nil; or what `serde_json` says is wrong with the
/// JSON text.
pub uninterp spec fn packed(
    kind: u32,
    id: u64,
    text: Option<Seq<char>>,
    json: Option<Seq<char>>,
) -> Result<Seq<u8>, Seq<char>>;

/// The view of what was packed.
pub open spec fn packed_view(r: Result<Vec<u8>, String>) -> Result<Seq<u8>, Seq<char>> {
    match r {
        Ok(b) => Ok(b@),
        Err(e) => Err(e@),
    }
}

/// The bytes of the text can be counted in 32 bits.
pub open spec fn countable(text: Option<Seq<char>>) -> bool {
    match text {
        Some(t) => t.len() < 0x4000_0000,
        None => true,
    }
}

/// The parts of a message are those of one that was packed: the kind, the number,
/// nil or a text in quotes, and nil where there was no value.
pub open spec fn parts_of(
    parts: Seq<(Seq<char>, Seq<char>)>,
    kind: u32,
    id: u64,
    text: Option<Seq<char>>,
    json: Option<Seq<char>>,
) -> bool {
    &&& parts.len() == 4
    &&& parts[0].0 == decimal(kind as nat)
    &&& parts[1].0 == decimal(id as nat)
    &&& match text {
        Some(_) => parts[2].0.len() > 0 && parts[2].0[0] == '"',
        None => parts[2] == ("null"@, "null"@),
    }
    &&& json is None ==> parts[3] == ("null"@, "null"@)
}

/// What was packed is read back: as the parts of a message, and, with a text, as a
/// request.
pub open spec fn read_back(
    b: Seq<u8>,
    kind: u32,
    id: u64,
    text: Option<Seq<char>>,
    json: Option<Seq<char>>,
) -> bool {
    &&& message_parts(b) matches Ok(ps) && parts_of(ps, kind, id, text, json)
    &&& match text {
        Some(t) => request_parts(b) == Ok::<(u32, u64, Seq<char>, Seq<char>), Seq<char>>(
            (kind, id, t, message_parts(b)->Ok_0[3].0),
        ),
        None => request_parts(b) is Err,
    }
}

/// `serde_json::from_str` into a `serde_json::Value`, and `rmp_serde::encode::write`
/// into a vector: the message, or the text of the error that the JSON text gives.
/// The result depends on the arguments alone. What was packed is read back: as the
/// parts of a message, and, with a text, as a request; `rmp` counts the bytes of a
/// text in 32 bits, so that this is said of texts of which they can be counted. How
/// the value is written as JSON again is left unsaid, but for nil.
#[verifier::external_body]
fn pack(kind: u32, id: u64, text: Option<&str>, json: Option<&str>) -> (r: Result<Vec<u8>, String>)
    ensures
        packed_view(r) == packed(kind, id, opt_str(text), opt_str(json)),
        json is None ==> r is Ok,
        match r {
            Ok(b) => countable(opt_str(text)) && countable(opt_str(json)) ==> read_back(
                b@,
                kind,
                id,
                opt_str(text),
                opt_str(json),
            ),
            Err(_) => true,
        },
{
    let value = match json.map(serde_json::from_str::<serde_json::Value>).transpose() {
        Ok(value) => value,
        Err(e) => return Err(e.to_string()),
    };
    let mut out: Vec<u8> = Vec::new();
    match rmp_serde::encode::write(&mut out, &(kind, id, text, value)) {
        Ok(()) => Ok(out),
        Err(e) => Err(e.to_string()),
    }
}

// ---------------------------------------------------------------------------
// Requests
// ---------------------------------------------------------------------------
/// What a client can ask for.
#[derive(Debug, Clone, Copy, PartialEq, Eq, Structural)]
pub enum RpcMethod {
    Ping,
    Setup,
    Refresh,
    Watch,
    Query,
    Scan,
    Status,
    ListProjects,
    DeleteProject,
    ModifyUprojectAddModule,
    ModifyTargetAddModule,
}

/// The method of a name.
pub open spec fn method_named(name: Seq<char>) -> Option<RpcMethod> {
    if name == "ping"@ {
        Some(RpcMethod::Ping)
    } else if name == "setup"@ {
        Some(RpcMethod::Setup)
    } else if name == "refresh"@ {
        Some(RpcMethod::Refresh)
    } else if name == "watch"@ {
        Some(RpcMethod::Watch)
    } else if name == "query"@ {
        Some(RpcMethod::Query)
    } else if name == "scan"@ {
        Some(RpcMethod::Scan)
    } else if name == "status"@ {
        Some(RpcMethod::Status)
    } else if name == "list_projects"@ {
        Some(RpcMethod::ListProjects)
    } else if name == "delete_project"@ {
        Some(RpcMethod::DeleteProject)
    } else if name == "modify_uproject_add_module"@ {
        Some(RpcMethod::ModifyUprojectAddModule)
    } else if name == "modify_target_add_module"@ {
        Some(RpcMethod::ModifyTargetAddModule)
    } else {
        None
    }
}

/// The method of a name; for any other name, what the client is told.
pub fn dispatch_rpc(method: &str) -> (r: Result<RpcMethod, String>)
    ensures
        match r {
            Ok(m) => method_named(method@) == Some(m),
            Err(e) => method_named(method@) is None && e@ == "Unknown RPC method: "@ + method@,
        },
{
    if str_eq(method, "ping") {
        Ok(RpcMethod::Ping)
    } else if str_eq(method, "setup") {
        Ok(RpcMethod::Setup)
    } else if str_eq(method, "refresh") {
        Ok(RpcMethod::Refresh)
    } else if str_eq(method, "watch") {
        Ok(RpcMethod::Watch)
    } else if str_eq(method, "query") {
        Ok(RpcMethod::Query)
    } else if str_eq(method, "scan") {
        Ok(RpcMethod::Scan)
    } else if str_eq(method, "status") {
        Ok(RpcMethod::Status)
    } else if str_eq(method, "list_projects") {
        Ok(RpcMethod::ListProjects)
    } else if str_eq(method, "delete_project") {
        Ok(RpcMethod::DeleteProject)
    } else if str_eq(method, "modify_uproject_add_module") {
        Ok(RpcMethod::ModifyUprojectAddModule)
    } else if str_eq(method, "modify_target_add_module") {
        Ok(RpcMethod::ModifyTargetAddModule)
    } else {
        Err(concat("Unknown RPC method: ", method))
    }
}

/// A request: its number, the name of what is asked for, the method of that name or
/// what the client is told, and the parameters as JSON text.
#[derive(Debug)]
pub struct RpcRequest {
    pub msgid: u64,
    pub name: String,
    pub method: Result<RpcMethod, String>,
    pub params: String,
}

/// A request: its number, the name of what is asked for, the method of that name or
/// what the client is told, and the parameters as JSON text.
pub struct RpcRequestView {
    pub msgid: u64,
    pub name: Seq<char>,
    pub method: Result<RpcMethod, Seq<char>>,
    pub params: Seq<char>,
}

impl View for RpcRequest {
    type V = RpcRequestView;

    open spec fn view(&self) -> RpcRequestView {
        RpcRequestView {
            msgid: self.msgid,
            name: self.name@,
            method: match self.method {
                Ok(m) => Ok(m),
                Err(e) => Err(e@),
            },
            params: self.params@,
        }
    }
}

/// The request that was read, of whatever kind it says it is; or what is wrong.
pub open spec fn request_of(parts: Result<(u32, u64, Seq<char>, Seq<char>), Seq<char>>) -> Result<
    RpcRequestView,
    Seq<char>,
> {
    match parts {
        Ok((_, id, name, params)) => Ok(
            RpcRequestView {
                msgid: id,
                name,
                method: match method_named(name) {
                    Some(m) => Ok(m),
                    None => Err("Unknown RPC method: "@ + name),
                },
                params,
            },
        ),
        Err(e) => Err(e),
    }
}

/// The view of a request, or of what is wrong.
pub open spec fn read_view(r: Result<RpcRequest, String>) -> Result<RpcRequestView, Seq<char>> {
    match r {
        Ok(q) => Ok(q@),
        Err(e) => Err(e@),
    }
}

/// The request of which the parts were read.
pub fn request_from(parts: Result<(u32, u64, String, String), String>) -> (r: Result<
    RpcRequest,
    String,
>)
    ensures
        read_view(r) == request_of(request_view(parts)),
{
    match parts {
        Ok((_, msgid, name, params)) => {
            let method = dispatch_rpc(name.as_str());
            Ok(RpcRequest { msgid, name, method, params })
        },
        Err(e) => Err(e),
    }
}

/// The request that the bytes hold.
pub fn read_request(frame: &[u8]) -> (r: Result<RpcRequest, String>)
    ensures
        read_view(r) == request_of(request_parts(frame@)),
{
    request_from(decode_request(frame))
}

/// The bytes that the client sends, once the request was packed.
pub open spec fn request_frame_of(bytes: Result<Seq<u8>, Seq<char>>) -> Result<
    Seq<u8>,
    Seq<char>,
> {
    match bytes {
        Ok(b) => Ok(framed(b)),
        Err(e) => Err("JSON parse error: "@ + e),
    }
}

/// The bytes that the client sends, once the request was packed.
pub fn request_frame(bytes: Result<Vec<u8>, String>) -> (r: Result<Vec<u8>, String>)
    ensures
        packed_view(r) == request_frame_of(packed_view(bytes)),
{
    match bytes {
        Ok(b) => Ok(encode_frame(&b)),
        Err(e) => Err(concat("JSON parse error: ", e.as_str())),
    }
}

/// The bytes by which the client asks for a method with the parameters of the JSON
/// text. The server reads the same method in them.
pub fn encode_request(method: &str, json: &str) -> (r: Result<Vec<u8>, String>)
    ensures
        packed_view(r) == request_frame_of(
            packed(MSG_REQUEST, DEFAULT_MSG_ID, Some(method@), Some(json@)),
        ),
        match r {
            Ok(f) => countable(Some(method@)) && countable(Some(json@)) ==> (request_of(
                request_parts(f@.skip(4)),
            ) matches Ok(q) && q.msgid == DEFAULT_MSG_ID && q.name == method@),
            Err(_) => true,
        },
{
    let bytes = pack(MSG_REQUEST, DEFAULT_MSG_ID, Some(method), Some(json));
    proof {
        if bytes is Ok {
            let b = bytes->Ok_0@;
            assert(framed(b).skip(4) =~= b);
        }
    }
    request_frame(bytes)
}

// ---------------------------------------------------------------------------
// Answers
// ---------------------------------------------------------------------------
/// The answer to a request: an error, or a value as JSON text.
#[derive(Debug, Clone)]
pub struct RpcResponse {
    pub msg_type: u32,
    pub msgid: u64,
    pub error: Option<String>,
    pub result: Option<String>,
}

/// The answer to a request bears its number, and the value or the error that came
/// of it.
pub fn make_response(msgid: u64, result: Result<String, String>) -> (r: RpcResponse)
    ensures
        r.msg_type == MSG_RESPONSE,
        r.msgid == msgid,
        match result {
            Ok(v) => r.error is None && r.result == Some(v),
            Err(e) => r.error == Some(e) && r.result is None,
        },
{
    match result {
        Ok(v) => RpcResponse { msg_type: MSG_RESPONSE, msgid, error: None, result: Some(v) },
        Err(e) => RpcResponse { msg_type: MSG_RESPONSE, msgid, error: Some(e), result: None },
    }
}

/// The bytes that the server sends, once the answer was packed.
pub open spec fn response_frame_of(bytes: Result<Seq<u8>, Seq<char>>) -> Result<
    Seq<u8>,
    Seq<char>,
> {
    match bytes {
        Ok(b) => Ok(framed(b)),
        Err(e) => Err(e),
    }
}

/// The bytes that the server sends, once the answer was packed.
pub fn response_frame(bytes: Result<Vec<u8>, String>) -> (r: Result<Vec<u8>, String>)
    ensures
        packed_view(r) == response_frame_of(packed_view(bytes)),
{
    match bytes {
        Ok(b) => Ok(encode_frame(&b)),
        Err(e) => Err(e),
    }
}

/// The bytes of an answer. The client that reads them reports an error where the
/// answer bears one, and shows a value where it does not.
pub fn encode_response(response: &RpcResponse) -> (r: Result<Vec<u8>, String>)
    ensures
        packed_view(r) == response_frame_of(
            packed(
                response.msg_type,
                response.msgid,
                opt_text(response.error),
                opt_text(response.result),
            ),
        ),
        response.result is None ==> r is Ok,
        match r {
            Ok(f) => countable(opt_text(response.error)) && countable(opt_text(response.result))
                ==> match reply_of(message_parts(f@.skip(4))) {
                ReplyView::Finish(shown) => response.msg_type == MSG_RESPONSE
                    && response.error is None && (response.result is None ==> shown == "null"@),
                ReplyView::Fail(_) => response.msg_type == MSG_RESPONSE && response.error is Some,
                ReplyView::Wait => response.msg_type != MSG_RESPONSE,
                ReplyView::Unreadable(_) => false,
            },
            Err(_) => true,
        },
{
    let error: Option<&str> = match &response.error {
        Some(e) => Some(e.as_str()),
        None => None,
    };
    let result: Option<&str> = match &response.result {
        Some(v) => Some(v.as_str()),
        None => None,
    };
    let bytes = pack(response.msg_type, response.msgid, error, result);
    proof {
        reveal_strlit("1");
        reveal_strlit("null");
        assert("1"@ =~= seq!['1']);
        lemma_one(response.msg_type as nat);
        if bytes is Ok {
            let b = bytes->Ok_0@;
            assert(framed(b).skip(4) =~= b);
        }
    }
    response_frame(bytes)
}

/// Only one is written as one.
proof fn lemma_one(n: nat)
    ensures
        (decimal(n) == seq!['1']) == (n == 1),
{
    reveal_with_fuel(decimal, 2);
    if n >= 10 {
        assert(decimal(n).len() == decimal(n / 10).len() + 1);
        assert(decimal(n / 10).len() > 0);
    } else {
        assert(decimal(n)[0] == digit_char(n as int));
        assert(seq!['1'][0] == '1');
    }
}

// ---------------------------------------------------------------------------
// Progress
// ---------------------------------------------------------------------------
/// What `rmp_serde::encode::write` writes for a kind, the name of a notification,
/// and the five fields of an event.
pub uninterp spec fn packed_event(
    kind: u32,
    method: Seq<char>,
    msg_type: Seq<char>,
    stage: Seq<char>,
    current: usize,
    total: usize,
    message: Seq<char>,
) -> Seq<u8>;

/// `rmp_serde::encode::write` on a kind, a name, and the fields of an event as a list
/// of their own: the message, a function of the arguments alone. It fails only where
/// its writer does, and a vector takes every byte. The message is read back as a message of three parts, of which the first is the kind; `rmp`
/// counts the bytes of a text in 32 bits, so that this is said of texts of which
/// they can be counted. How the name and the event are written as JSON is left
/// unsaid.
#[verifier::external_body]
fn pack_event(kind: u32, method: &str, event: &Progress) -> (r: Option<Vec<u8>>)
    ensures
        match r {
            Some(b) => b@ == packed_event(
                kind,
                method@,
                event.msg_type@,
                event.stage@,
                event.current,
                event.total,
                event.message@,
            ) && (event_countable(method@, *event) ==> (message_parts(b@) matches Ok(ps)
                && ps.len() == 3 && ps[0].0 == decimal(kind as nat))),
            None => false,
        },
{
    let p = event;
    let fields = (&p.msg_type, &p.stage, p.current, p.total, &p.message);
    let mut out: Vec<u8> = Vec::new();
    rmp_serde::encode::write(&mut out, &(kind, method, fields)).ok()?;
    Some(out)
}

/// The bytes of each text of a notification can be counted in 32 bits.
pub open spec fn event_countable(method: Seq<char>, event: Progress) -> bool {
    countable(Some(method)) && countable(Some(event.msg_type@)) && countable(Some(event.stage@))
        && countable(Some(event.message@))
}

/// The bytes by which the server tells a client of an event. The client goes on
/// waiting for its answer.
pub fn encode_progress(event: &Progress) -> (r: Option<Vec<u8>>)
    ensures
        match r {
            Some(f) => f@ == framed(
                packed_event(
                    MSG_NOTIFICATION,
                    "progress"@,
                    event.msg_type@,
                    event.stage@,
                    event.current,
                    event.total,
                    event.message@,
                ),
            ) && (event_countable("progress"@, *event) ==> reply_of(
                message_parts(f@.skip(4)),
            ) is Wait),
            None => false,
        },
{
    let bytes = pack_event(MSG_NOTIFICATION, "progress", event);
    proof {
        reveal_strlit("1");
        assert("1"@ =~= seq!['1']);
        lemma_one(MSG_NOTIFICATION as nat);
        if bytes is Some {
            let b = bytes->0@;
            assert(framed(b).skip(4) =~= b);
        }
    }
    match bytes {
        Some(b) => Some(encode_frame(&b)),
        None => None,
    }
}

// ---------------------------------------------------------------------------
// What the client does
// ---------------------------------------------------------------------------
/// What a client does with a message.
#[derive(Debug, Clone, PartialEq, Eq)]
pub enum ReplyStep {
    /// It shows the value, and is done.
    Finish(String),
    /// It reports the error.
    Fail(String),
    /// It waits for the next message.
    Wait,
    /// It reports that the message cannot be read.
    Unreadable(String),
}

/// What a client does with a message.
pub enum ReplyView {
    Finish(Seq<char>),
    Fail(Seq<char>),
    Wait,
    Unreadable(Seq<char>),
}

impl View for ReplyStep {
    type V = ReplyView;

    open spec fn view(&self) -> ReplyView {
        match *self {
            ReplyStep::Finish(s) => ReplyView::Finish(s@),
            ReplyStep::Fail(s) => ReplyView::Fail(s@),
            ReplyStep::Wait => ReplyView::Wait,
            ReplyStep::Unreadable(s) => ReplyView::Unreadable(s@),
        }
    }
}

/// What a client does with a message of the parts: only an answer, of which the
/// first part is one, ends the wait. Its third part is the error, if that is not
/// null, and its fourth the value.
pub open spec fn reply_of(parts: Result<Seq<(Seq<char>, Seq<char>)>, Seq<char>>) -> ReplyView {
    match parts {
        Err(e) => ReplyView::Unreadable(e),
        Ok(ps) => if ps.len() == 0 || ps[0].0 != "1"@ {
            ReplyView::Wait
        } else if ps.len() > 2 && ps[2].0 != "null"@ {
            ReplyView::Fail("Server error: "@ + ps[2].0)
        } else if ps.len() > 3 {
            ReplyView::Finish(ps[3].1)
        } else {
            ReplyView::Finish("null"@)
        },
    }
}

/// What a client does with a message of which the parts were read.
pub fn reply_to(parts: Result<Vec<(String, String)>, String>) -> (r: ReplyStep)
    ensures
        r@ == reply_of(message_view(parts)),
{
    match parts {
        Err(e) => ReplyStep::Unreadable(e),
        Ok(ps) => if ps.len() == 0 || !str_eq(ps[0].0.as_str(), "1") {
            ReplyStep::Wait
        } else if ps.len() > 2 && !str_eq(ps[2].0.as_str(), "null") {
            ReplyStep::Fail(concat("Server error: ", ps[2].0.as_str()))
        } else if ps.len() > 3 {
            ReplyStep::Finish(ps[3].1.clone())
        } else {
            ReplyStep::Finish(owned("null"))
        },
    }
}

/// What a client does with the message that the bytes hold.
pub fn handle_rpc_frame(frame: &[u8]) -> (r: ReplyStep)
    ensures
        r@ == reply_of(message_parts(frame@)),
{
    reply_to(decode_message(frame))
}

} // verus!
