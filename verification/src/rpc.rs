//! The JSON-RPC 2.0 engine: envelope reading, notification/request
//! classification, method routing, and the response builders, all independent
//! of transport. A transport parses bytes into a [`JsonValue`], hands it to
//! the dispatcher, and serializes what comes back; it also applies the auth
//! guard first where authentication is enabled.
use vstd::prelude::*;
use crate::json::{JsonVal, JsonValue};
use crate::text::str_eq;

verus! {

/// The model of a request envelope.
#[verifier::ext_equal]
pub struct ReqV {
    pub jsonrpc: Seq<char>,
    pub id: Option<JsonVal>,
    pub method: Seq<char>,
    pub params: Option<JsonVal>,
}

/// A parsed request envelope. A missing or null `id` marks a notification; a
/// missing or null `params` means no parameters.
pub struct RpcRequest {
    pub jsonrpc: String,
    pub id: Option<JsonValue>,
    pub method: String,
    pub params: Option<JsonValue>,
}

impl View for RpcRequest {
    type V = ReqV;

    open spec fn view(&self) -> ReqV {
        ReqV {
            jsonrpc: self.jsonrpc@,
            id: match self.id {
                Some(v) => Some(v@),
                None => None,
            },
            method: self.method@,
            params: match self.params {
                Some(v) => Some(v@),
                None => None,
            },
        }
    }
}

/// An optional field: a missing key and an explicit `null` read the same.
pub open spec fn spec_opt_field(m: JsonVal, key: Seq<char>) -> Option<JsonVal> {
    match m.get(key) {
        Some(v) => if v is Null {
            None
        } else {
            Some(v)
        },
        None => None,
    }
}

/// The envelope of a message: `None` where the message is no object or lacks
/// a string `jsonrpc` or `method`, in which case the transport rejects it
/// with its own bad-request signal, no JSON-RPC envelope being possible.
pub open spec fn spec_read_request(m: JsonVal) -> Option<ReqV> {
    match (m.get("jsonrpc"@), m.get("method"@)) {
        (Some(JsonVal::Str(ver)), Some(JsonVal::Str(method))) => Some(
            ReqV {
                jsonrpc: ver,
                id: spec_opt_field(m, "id"@),
                method,
                params: spec_opt_field(m, "params"@),
            },
        ),
        _ => None,
    }
}

/// Reads the request envelope out of a message.
pub fn read_request(msg: &JsonValue) -> (r: Option<RpcRequest>)
    ensures
        match r {
            Some(req) => spec_read_request(msg@) == Some(req@),
            None => spec_read_request(msg@) is None,
        },
{
    let ver = match msg.get("jsonrpc") {
        Some(v) => match v.as_str() {
            Some(s) => s.clone(),
            None => {
                return None;
            },
        },
        None => {
            return None;
        },
    };
    let method = match msg.get("method") {
        Some(v) => match v.as_str() {
            Some(s) => s.clone(),
            None => {
                return None;
            },
        },
        None => {
            return None;
        },
    };
    let id = match msg.get("id") {
        Some(v) => if v.is_null() {
            None
        } else {
            Some(crate::json::clone_json(v))
        },
        None => None,
    };
    let params = match msg.get("params") {
        Some(v) => if v.is_null() {
            None
        } else {
            Some(crate::json::clone_json(v))
        },
        None => None,
    };
    Some(RpcRequest { jsonrpc: ver, id, method, params })
}

/// The id a response echoes: the request's own, or `null` where it had none.
pub open spec fn id_or_null(id: Option<JsonVal>) -> JsonVal {
    match id {
        Some(v) => v,
        None => JsonVal::Null,
    }
}

/// A success response: version, echoed id, and the result.
pub open spec fn spec_response_ok(id: JsonVal, result: JsonVal) -> JsonVal {
    JsonVal::Obj(
        seq![("jsonrpc"@, JsonVal::Str("2.0"@)), ("id"@, id), ("result"@, result)],
    )
}

/// An error response: version, echoed id, and the error object. A response
/// never carries both a result and an error.
pub open spec fn spec_response_err(id: JsonVal, code: int, message: Seq<char>) -> JsonVal {
    JsonVal::Obj(
        seq![
            ("jsonrpc"@, JsonVal::Str("2.0"@)),
            ("id"@, id),
            (
                "error"@,
                JsonVal::Obj(
                    seq![("code"@, JsonVal::Int(code)), ("message"@, JsonVal::Str(message))],
                ),
            ),
        ],
    )
}

/// The acknowledgement a notification gets on transports that must reply:
/// an empty result under a null id, never an error.
pub open spec fn spec_ack() -> JsonVal {
    spec_response_ok(JsonVal::Null, JsonVal::Obj(Seq::empty()))
}

/// Law: a response carries a result or an error, never both — every success
/// response has a `result` and no `error`, every error response the reverse,
/// and both echo the id under `id`.
pub proof fn lemma_response_exclusive(id: JsonVal, result: JsonVal, code: int, message: Seq<char>)
    ensures
        spec_response_ok(id, result).get("result"@) == Some(result),
        spec_response_ok(id, result).get("error"@) is None,
        spec_response_ok(id, result).get("id"@) == Some(id),
        spec_response_err(id, code, message).get("error"@) is Some,
        spec_response_err(id, code, message).get("result"@) is None,
        spec_response_err(id, code, message).get("id"@) == Some(id),
{
    reveal_strlit("jsonrpc");
    reveal_strlit("id");
    reveal_strlit("result");
    reveal_strlit("error");
    assert(("jsonrpc"@).len() == 7);
    assert(("id"@).len() == 2);
    assert(("result"@).len() == 6);
    assert(("error"@).len() == 5);
    let ok = spec_response_ok(id, result)->Obj_0;
    let ok1 = ok.drop_first();
    let ok2 = ok1.drop_first();
    assert(ok1[0] == ok[1] && ok2[0] == ok[2]);
    assert(ok2.drop_first() =~= Seq::<(Seq<char>, JsonVal)>::empty());
    assert(crate::json::obj_get(ok, "result"@) == crate::json::obj_get(ok1, "result"@));
    assert(crate::json::obj_get(ok1, "result"@) == crate::json::obj_get(ok2, "result"@));
    assert(crate::json::obj_get(ok2, "result"@) == Some(result));
    assert(crate::json::obj_get(ok, "id"@) == crate::json::obj_get(ok1, "id"@));
    assert(crate::json::obj_get(ok1, "id"@) == Some(id));
    assert(crate::json::obj_get(ok, "error"@) == crate::json::obj_get(ok1, "error"@));
    assert(crate::json::obj_get(ok1, "error"@) == crate::json::obj_get(ok2, "error"@));
    assert(crate::json::obj_get(ok2, "error"@) == crate::json::obj_get(ok2.drop_first(), "error"@));
    assert(crate::json::obj_get(ok2.drop_first(), "error"@) is None);
    let er = spec_response_err(id, code, message)->Obj_0;
    let er1 = er.drop_first();
    let er2 = er1.drop_first();
    assert(er1[0] == er[1] && er2[0] == er[2]);
    assert(er2.drop_first() =~= Seq::<(Seq<char>, JsonVal)>::empty());
    assert(crate::json::obj_get(er, "error"@) == crate::json::obj_get(er1, "error"@));
    assert(crate::json::obj_get(er1, "error"@) == crate::json::obj_get(er2, "error"@));
    assert(crate::json::obj_get(er2, "error"@) is Some);
    assert(crate::json::obj_get(er, "id"@) == crate::json::obj_get(er1, "id"@));
    assert(crate::json::obj_get(er1, "id"@) == Some(id));
    assert(crate::json::obj_get(er, "result"@) == crate::json::obj_get(er1, "result"@));
    assert(crate::json::obj_get(er1, "result"@) == crate::json::obj_get(er2, "result"@));
    assert(crate::json::obj_get(er2, "result"@) == crate::json::obj_get(er2.drop_first(), "result"@));
    assert(crate::json::obj_get(er2.drop_first(), "result"@) is None);
}

fn response_ok(id: JsonValue, result: JsonValue) -> (r: JsonValue)
    ensures
        r@ == spec_response_ok(id@, result@),
{
    crate::json::jobj3("jsonrpc", crate::json::jstr("2.0"), "id", id, "result", result)
}

fn response_err(id: JsonValue, code: i64, message: &str) -> (r: JsonValue)
    ensures
        r@ == spec_response_err(id@, code as int, message@),
{
    crate::json::jobj3(
        "jsonrpc",
        crate::json::jstr("2.0"),
        "id",
        id,
        "error",
        crate::json::jobj2(
            "code",
            crate::json::jint(code),
            "message",
            crate::json::jstr(message),
        ),
    )
}

/// The `initialize` result: protocol version, the tool capability (the only
/// one ever advertised), and the static server identity.
pub open spec fn spec_init_result() -> JsonVal {
    JsonVal::Obj(
        seq![
            ("protocolVersion"@, JsonVal::Str("2025-03-26"@)),
            (
                "capabilities"@,
                JsonVal::Obj(seq![("tools"@, JsonVal::Obj(Seq::empty()))]),
            ),
            (
                "serverInfo"@,
                JsonVal::Obj(
                    seq![
                        ("name"@, JsonVal::Str("inferenco-mcp"@)),
                        ("version"@, JsonVal::Str("0.1.0"@)),
                    ],
                ),
            ),
        ],
    )
}

fn init_result(service: &crate::tools::ToolService) -> (r: JsonValue)
    ensures
        r@ == spec_init_result(),
{
    let info = service.get_server_info();
    crate::json::jobj3(
        "protocolVersion",
        crate::json::jstring(info.protocol_version),
        "capabilities",
        crate::json::jobj1("tools", crate::json::jobj0()),
        "serverInfo",
        crate::json::jobj2(
            "name",
            crate::json::jstring(info.name),
            "version",
            crate::json::jstring(info.version),
        ),
    )
}

/// The wire form of one tool descriptor.
pub open spec fn spec_tool_json(d: crate::tools::ToolDescV) -> JsonVal {
    JsonVal::Obj(
        seq![
            ("name"@, JsonVal::Str(d.name)),
            ("description"@, JsonVal::Str(d.description)),
            ("inputSchema"@, d.input_schema),
        ],
    )
}

/// The `tools/list` result: the registry listing, verbatim and in order.
pub open spec fn spec_list_result() -> JsonVal {
    JsonVal::Obj(
        seq![
            (
                "tools"@,
                JsonVal::Arr(crate::tools::spec_registry().map_values(|d| spec_tool_json(d))),
            ),
        ],
    )
}

fn list_result(service: &crate::tools::ToolService) -> (r: JsonValue)
    ensures
        r@ == spec_list_result(),
{
    let tools = service.available_tools();
    let mut items: Vec<JsonValue> = Vec::new();
    let mut i: usize = 0;
    while i < tools.len()
        invariant
            i <= tools@.len(),
            tools.deep_view() == crate::tools::spec_registry(),
            items@.len() == i,
            forall|k: int|
                0 <= k < i ==> items@[k]@ == spec_tool_json(tools.deep_view()[k]),
        decreases tools@.len() - i,
    {
        let d = &tools[i];
        items.push(
            crate::json::jobj3(
                "name",
                crate::json::jstring(d.name.clone()),
                "description",
                crate::json::jstring(d.description.clone()),
                "inputSchema",
                crate::json::clone_json(&d.input_schema),
            ),
        );
        proof {
            assert(tools@[i as int].deep_view() == tools.deep_view()[i as int]);
            assert(items@[i as int]@ =~~= spec_tool_json(tools.deep_view()[i as int]));
        }
        i = i + 1;
    }
    proof {
        assert(items.deep_view() =~= tools.deep_view().map_values(|d| spec_tool_json(d)));
        assert(tools.deep_view().map_values(|d| spec_tool_json(d))
            =~= crate::tools::spec_registry().map_values(|d| spec_tool_json(d)));
    }
    crate::json::jobj1("tools", crate::json::jarr(items))
}

/// Whether a presented credential is in the allow-list: absence and a value
/// not in the list are both unauthorized, with no distinction.
pub open spec fn spec_authorized(provided: Option<Seq<char>>, keys: Seq<Seq<char>>) -> bool {
    match provided {
        Some(p) => keys.contains(p),
        None => false,
    }
}

fn contains_string(keys: &Vec<String>, x: &str) -> (r: bool)
    ensures
        r == keys.deep_view().contains(x@),
{
    let mut i: usize = 0;
    while i < keys.len()
        invariant
            i <= keys@.len(),
            forall|k: int| 0 <= k < i ==> keys.deep_view()[k] != x@,
        decreases keys@.len() - i,
    {
        if str_eq(keys[i].as_str(), x) {
            proof {
                assert(keys.deep_view()[i as int] == x@);
            }
            return true;
        }
        i = i + 1;
    }
    false
}

/// The auth guard: admits a request exactly when it presents a credential
/// that is a member of the allow-list.
pub fn authorize(provided: Option<&String>, keys: &Vec<String>) -> (r: bool)
    ensures
        r == spec_authorized(
            match provided {
                Some(p) => Some(p@),
                None => None,
            },
            keys.deep_view(),
        ),
{
    match provided {
        Some(p) => contains_string(keys, p.as_str()),
        None => false,
    }
}

/// Whether the transport admits a request: always when authentication is
/// off; with it on, exactly when the presented credential is authorized.
pub open spec fn spec_gate(enabled: bool, provided: Option<Seq<char>>, keys: Seq<Seq<char>>) -> bool {
    !enabled || spec_authorized(provided, keys)
}

/// The transport's admission gate, applied before any request bytes are
/// parsed: with authentication enabled a request passes exactly when it
/// presents a listed credential, and with it off every request passes.
pub fn gate_allows(enabled: bool, provided: Option<&String>, keys: &Vec<String>) -> (r: bool)
    ensures
        r == spec_gate(
            enabled,
            match provided {
                Some(p) => Some(p@),
                None => None,
            },
            keys.deep_view(),
        ),
{
    !enabled || authorize(provided, keys)
}

/// Law: with authentication enabled, a request that presents no credential
/// and one whose credential — the empty one included — is not a member of
/// the allow-list are both refused, with no distinction; a listed credential
/// is admitted; with authentication off, every request is admitted.
pub proof fn lemma_gate_decisions(provided: Option<Seq<char>>, keys: Seq<Seq<char>>)
    ensures
        provided is None ==> !spec_gate(true, provided, keys),
        (provided matches Some(p) && !keys.contains(p)) ==> !spec_gate(true, provided, keys),
        (provided matches Some(p) && keys.contains(p)) ==> spec_gate(true, provided, keys),
        spec_gate(false, provided, keys),
{
}

/// The comma-separated allow-list, each entry trimmed of outer whitespace.
pub open spec fn spec_split_trim(s: Seq<char>) -> Seq<Seq<char>>
    decreases s.len(),
{
    let i = crate::text::find_char_idx(s, ',', 0);
    if !(0 <= i < s.len()) {
        seq![crate::text::trim_spec(s)]
    } else {
        seq![crate::text::trim_spec(s.take(i))] + spec_split_trim(s.skip(i + 1))
    }
}

/// Splits a configured allow-list on commas and trims each entry.
pub fn parse_api_keys(s: &str) -> (r: Vec<String>)
    ensures
        r.deep_view() == spec_split_trim(s@),
    decreases s@.len(),
{
    let n = s.unicode_len();
    let mut i: usize = 0;
    while i < n && s.get_char(i) != ','
        invariant
            i <= n,
            n == s@.len(),
            crate::text::find_char_idx(s@, ',', 0) == crate::text::find_char_idx(s@, ',', i as int),
        decreases n - i,
    {
        i = i + 1;
    }
    if i == n {
        let mut out: Vec<String> = Vec::new();
        out.push(String::from_str(crate::text::trim(s)));
        proof {
            assert(out.deep_view() =~= seq![crate::text::trim_spec(s@)]);
        }
        out
    } else {
        let head = s.substring_char(0, i);
        let rest = s.substring_char(i + 1, n);
        let mut out: Vec<String> = Vec::new();
        out.push(String::from_str(crate::text::trim(head)));
        let mut tail = parse_api_keys(rest);
        out.append(&mut tail);
        proof {
            assert(head@ =~= s@.take(i as int));
            assert(rest@ =~= s@.skip(i as int + 1));
            assert(out.deep_view() =~= seq![crate::text::trim_spec(s@.take(i as int))]
                + spec_split_trim(s@.skip(i as int + 1)));
        }
        out
    }
}

/// The transports this server offers.
pub enum Transport {
    Stdio,
    Http,
}

/// Decides the transport from the configured selector: `http` selects the
/// HTTP transport; anything else, the default included, falls back to stdio.
pub fn parse_transport(s: &str) -> (r: Transport)
    ensures
        r == if s@ == "http"@ {
            Transport::Http
        } else {
            Transport::Stdio
        },
{
    if str_eq(s, "http") {
        Transport::Http
    } else {
        Transport::Stdio
    }
}

/// Whether every character is a decimal digit.
pub open spec fn all_digits(s: Seq<char>) -> bool {
    forall|i: int| 0 <= i < s.len() ==> '0' <= #[trigger] s[i] <= '9'
}

/// The value of a string of decimal digits.
pub open spec fn dec_value(s: Seq<char>) -> int
    decreases s.len(),
{
    if s.len() == 0 {
        0
    } else {
        dec_value(s.drop_last()) * 10 + (s.last() as int - '0' as int)
    }
}

/// The configured port: the value of a non-empty all-digit selector that
/// fits a port number; the default for anything else.
pub open spec fn spec_parse_port(s: Seq<char>) -> u16 {
    if s.len() > 0 && all_digits(s) && dec_value(s) <= 65535 {
        dec_value(s) as u16
    } else {
        8080
    }
}

proof fn lemma_dec_value_nonneg(s: Seq<char>)
    requires
        forall|k: int| 0 <= k < s.len() ==> '0' <= #[trigger] s[k] <= '9',
    ensures
        dec_value(s) >= 0,
    decreases s.len(),
{
    if s.len() > 0 {
        assert(s.drop_last() =~= s.subrange(0, s.len() - 1));
        lemma_dec_value_nonneg(s.drop_last());
    }
}

proof fn lemma_dec_value_mono(s: Seq<char>, i: int, j: int)
    requires
        0 <= i <= j <= s.len(),
        forall|k: int| 0 <= k < s.len() ==> '0' <= #[trigger] s[k] <= '9',
    ensures
        dec_value(s.take(i)) <= dec_value(s.take(j)),
    decreases j - i,
{
    if i < j {
        lemma_dec_value_mono(s, i, j - 1);
        let t = s.take(j);
        assert(t.drop_last() =~= s.take(j - 1));
        assert(forall|k: int| 0 <= k < s.take(j - 1).len() ==> '0' <= #[trigger] s.take(
            j - 1,
        )[k] <= '9');
        lemma_dec_value_nonneg(s.take(j - 1));
        assert(dec_value(t) == dec_value(s.take(j - 1)) * 10 + (t.last() as int - '0' as int));
        assert(t.last() == s[j - 1]);
        assert(t.last() as int - '0' as int >= 0);
    }
}

/// Reads the configured port selector: a decimal port number is taken as it
/// is, anything unusable falls back to the default `8080`.
pub fn parse_port(s: &str) -> (r: u16)
    ensures
        r == spec_parse_port(s@),
{
    let n = s.unicode_len();
    if n == 0 {
        return 8080;
    }
    let mut val: u32 = 0;
    let mut i: usize = 0;
    while i < n
        invariant
            i <= n,
            n == s@.len(),
            n > 0,
            forall|k: int| 0 <= k < i ==> '0' <= #[trigger] s@[k] <= '9',
            val == dec_value(s@.take(i as int)),
            val <= 65535,
        decreases n - i,
    {
        let c = s.get_char(i);
        let d = c as u32;
        if d < 48 || d > 57 {
            proof {
                assert(!('0' <= s@[i as int] <= '9'));
                assert(!all_digits(s@));
            }
            return 8080;
        }
        proof {
            let t = s@.take(i as int + 1);
            assert(t.drop_last() =~= s@.take(i as int));
            assert(t.last() == s@[i as int]);
            assert(dec_value(t) == dec_value(s@.take(i as int)) * 10 + (s@[i as int] as int
                - '0' as int));
        }
        let nv: u32 = val * 10 + (d - 48);
        if nv > 65535 {
            proof {
                if all_digits(s@) {
                    lemma_dec_value_mono(s@, i as int + 1, n as int);
                    assert(s@.take(n as int) =~= s@);
                }
            }
            return 8080;
        }
        val = nv;
        i = i + 1;
    }
    proof {
        assert(s@.take(n as int) =~= s@);
    }
    val as u16
}

/// The liveness payload of `GET /health` and `GET /`.
pub open spec fn spec_health() -> JsonVal {
    JsonVal::Obj(
        seq![
            ("status"@, JsonVal::Str("ok"@)),
            ("service"@, JsonVal::Str("inferenco-mcp"@)),
            ("protocol_version"@, JsonVal::Str("2025-03-26"@)),
        ],
    )
}

/// Builds the liveness payload: static status and version info, no auth.
pub fn health_response() -> (r: JsonValue)
    ensures
        r@ == spec_health(),
{
    crate::json::jobj3(
        "status",
        crate::json::jstr("ok"),
        "service",
        crate::json::jstr("inferenco-mcp"),
        "protocol_version",
        crate::json::jstr(crate::protocol_version()),
    )
}

/// The in-band error event an unauthorized event-stream client receives; the
/// message distinguishes a missing token from a rejected one.
pub open spec fn spec_sse_error_event(token_present: bool) -> JsonVal {
    JsonVal::Obj(
        seq![
            ("jsonrpc"@, JsonVal::Str("2.0"@)),
            (
                "error"@,
                JsonVal::Obj(
                    seq![
                        ("code"@, JsonVal::Int(-32000)),
                        (
                            "message"@,
                            JsonVal::Str(
                                if token_present {
                                    "Unauthorized"@
                                } else {
                                    "Authentication required"@
                                },
                            ),
                        ),
                    ],
                ),
            ),
        ],
    )
}

/// Builds the event an unauthorized event-stream client is sent in-band; the
/// stream then stays open and keeps sending keepalives.
pub fn sse_error_event(token_present: bool) -> (r: JsonValue)
    ensures
        r@ == spec_sse_error_event(token_present),
{
    let message = if token_present {
        "Unauthorized"
    } else {
        "Authentication required"
    };
    crate::json::jobj2(
        "jsonrpc",
        crate::json::jstr("2.0"),
        "error",
        crate::json::jobj2(
            "code",
            crate::json::jint(-32000),
            "message",
            crate::json::jstr(message),
        ),
    )
}

/// The first event of an authorized event stream: the same payload as a
/// successful `initialize`, under the version field.
pub open spec fn spec_sse_init_event() -> JsonVal {
    JsonVal::Obj(
        seq![("jsonrpc"@, JsonVal::Str("2.0"@)), ("result"@, spec_init_result())],
    )
}

/// Builds the initialization event of an event stream.
pub fn sse_init_event(service: &crate::tools::ToolService) -> (r: JsonValue)
    ensures
        r@ == spec_sse_init_event(),
{
    crate::json::jobj2(
        "jsonrpc",
        crate::json::jstr("2.0"),
        "result",
        init_result(service),
    )
}

/// The wire form of one content block: a text block passes through; every
/// other kind collapses to a placeholder text block.
pub open spec fn spec_content_json(c: crate::tools::ContentV) -> JsonVal {
    match c {
        crate::tools::ContentV::Text(t) => JsonVal::Obj(
            seq![("type"@, JsonVal::Str("text"@)), ("text"@, JsonVal::Str(t))],
        ),
        crate::tools::ContentV::Unsupported => JsonVal::Obj(
            seq![
                ("type"@, JsonVal::Str("text"@)),
                ("text"@, JsonVal::Str("Content type not supported"@)),
            ],
        ),
    }
}

/// The response to a completed `tools/call`: the content array on success,
/// the error's own code and message on failure.
pub open spec fn spec_call_reply(
    id: JsonVal,
    out: Result<Seq<crate::tools::ContentV>, crate::tools::RpcErrorV>,
) -> JsonVal {
    match out {
        Ok(content) => spec_response_ok(
            id,
            JsonVal::Obj(
                seq![("content"@, JsonVal::Arr(content.map_values(|c| spec_content_json(c))))],
            ),
        ),
        Err(e) => spec_response_err(id, e.code, e.message),
    }
}

fn content_json(c: &crate::tools::Content) -> (r: JsonValue)
    ensures
        r@ == spec_content_json(c@),
{
    match c {
        crate::tools::Content::Text(t) => crate::json::jobj2(
            "type",
            crate::json::jstr("text"),
            "text",
            crate::json::jstring(t.clone()),
        ),
        crate::tools::Content::Unsupported => crate::json::jobj2(
            "type",
            crate::json::jstr("text"),
            "text",
            crate::json::jstr("Content type not supported"),
        ),
    }
}

fn call_reply(id: JsonValue, out: Result<crate::tools::CallToolResult, crate::tools::RpcError>)
    -> (r: JsonValue)
    ensures
        r@ == spec_call_reply(
            id@,
            match out {
                Ok(res) => Ok(res@),
                Err(e) => Err(e@),
            },
        ),
{
    match out {
        Ok(res) => {
            let mut items: Vec<JsonValue> = Vec::new();
            let mut i: usize = 0;
            while i < res.content.len()
                invariant
                    i <= res.content@.len(),
                    items@.len() == i,
                    forall|k: int|
                        0 <= k < i ==> items@[k]@ == spec_content_json(res.content@[k]@),
                decreases res.content@.len() - i,
            {
                items.push(content_json(&res.content[i]));
                i = i + 1;
            }
            proof {
                assert(items.deep_view() =~= res@.map_values(|c| spec_content_json(c)));
            }
            response_ok(id, crate::json::jobj1("content", crate::json::jarr(items)))
        },
        Err(e) => {
            let r = crate::json::jobj3(
                "jsonrpc",
                crate::json::jstr("2.0"),
                "id",
                id,
                "error",
                crate::json::jobj2(
                    "code",
                    crate::json::jint(e.code),
                    "message",
                    crate::json::jstring(e.message),
                ),
            );
            r
        },
    }
}

/// Whether this envelope is the one request that moves the counter: a valid
/// `tools/call` request naming the increment tool.
pub open spec fn spec_is_increment_call(rv: ReqV) -> bool {
    &&& rv.jsonrpc == "2.0"@
    &&& rv.id is Some
    &&& rv.method == "tools/call"@
    &&& match rv.params {
        Some(p) => spec_call_name(p) == Some("increment"@),
        None => false,
    }
}

/// The tool name of a `tools/call`, where present as a string.
pub open spec fn spec_call_name(p: JsonVal) -> Option<Seq<char>> {
    match p.get("name"@) {
        Some(JsonVal::Str(n)) => Some(n),
        _ => None,
    }
}

/// The arguments of a `tools/call`: verbatim, the empty object where the key
/// is absent. An explicit `null` stays null and is rejected by every tool's
/// argument reader.
pub open spec fn spec_call_args(p: JsonVal) -> JsonVal {
    match p.get("arguments"@) {
        Some(a) => a,
        None => JsonVal::Obj(Seq::empty()),
    }
}

/// How a routed `tools/call` with a (string) tool name answers, given the
/// counter value before the call.
pub open spec fn spec_call_dispatched(
    c0: u32,
    idv: JsonVal,
    name: Seq<char>,
    args: JsonVal,
    r: DispatchStep,
) -> bool {
    if name == "echo"@ {
        match crate::dto::spec_echo_args(args) {
            Some(m) => r matches DispatchStep::Reply(resp) && resp@ == spec_call_reply(
                idv,
                Ok(seq![crate::tools::ContentV::Text(m)]),
            ),
            None => spec_call_error(idv, "Invalid echo arguments"@, r),
        }
    } else if name == "reverse_text"@ {
        match crate::dto::spec_reverse_args(args) {
            Some(t) => r matches DispatchStep::Reply(resp) && resp@ == spec_call_reply(
                idv,
                Ok(seq![crate::tools::ContentV::Text(t.reverse())]),
            ),
            None => spec_call_error(idv, "Invalid reverse_text arguments"@, r),
        }
    } else if name == "increment"@ {
        r matches DispatchStep::Reply(resp) && resp@ == spec_call_reply(
            idv,
            Ok(seq![crate::tools::ContentV::Text(crate::text::dec_str(c0 + 1))]),
        )
    } else if name == "current_time"@ {
        r matches DispatchStep::Reply(resp) && exists|res: Seq<crate::tools::ContentV>|
            #![auto]
            crate::tools::time_result(res) && resp@ == spec_call_reply(idv, Ok(res))
    } else if name == "roll_dice"@ {
        match crate::dto::spec_dice_args(args) {
            Some(k) => r matches DispatchStep::Reply(resp) && exists|
                res: Seq<crate::tools::ContentV>,
            |
                #![auto]
                crate::tools::dice_roll_result(res, k) && resp@ == spec_call_reply(idv, Ok(res)),
            None => spec_call_error(idv, "Invalid roll_dice arguments"@, r),
        }
    } else if name == "read_cedra_docs"@ {
        match crate::dto::spec_docs_args(args) {
            Some(path) => ({
                let t = crate::text::trim_spec(path);
                if crate::text::has_prefix(t, "http://"@) || crate::text::has_prefix(
                    t,
                    "https://"@,
                ) {
                    spec_call_error(idv, "Path must be relative to docs.cedra.network"@, r)
                } else {
                    r matches DispatchStep::Fetch { id, url } && id@ == idv && url@
                        == "https://docs.cedra.network/"@ + crate::text::skip_leading(t, '/')
                }
            }),
            None => spec_call_error(idv, "Invalid read_cedra_docs arguments"@, r),
        }
    } else {
        spec_call_error(idv, "Tool not found"@, r)
    }
}

/// An invalid-params reply to a `tools/call`.
pub open spec fn spec_call_error(idv: JsonVal, message: Seq<char>, r: DispatchStep) -> bool {
    r matches DispatchStep::Reply(resp) && resp@ == spec_call_reply(
        idv,
        Err(
            crate::tools::RpcErrorV {
                code: crate::tools::CODE_INVALID_PARAMS as int,
                message,
            },
        ),
    )
}

/// What the dispatcher decided for one inbound message.
pub enum DispatchStep {
    /// A complete response to send back.
    Reply(JsonValue),
    /// The acknowledgement of a notification: a transport that must reply
    /// sends it; one that may stay silent drops it.
    Ack(JsonValue),
    /// The docs tool needs this URL fetched; hand what was observed, with the
    /// same id, to [`dispatch_fetched`].
    Fetch { id: JsonValue, url: String },
}

/// Routes one classified request: protocol-shape errors first, then the
/// notification path, then the method table. Every non-notification reply
/// echoes the request's id unchanged and carries either a result or an
/// error, never both.
pub fn dispatch(service: &mut crate::tools::ToolService, req: RpcRequest) -> (r: DispatchStep)
    requires
        old(service).counter < u32::MAX,
    ensures
        final(service).counter == if spec_is_increment_call(req@) {
            old(service).counter + 1
        } else {
            old(service).counter as int
        },
        req@.jsonrpc != "2.0"@ ==> (r matches DispatchStep::Reply(resp) && resp@
            == spec_response_err(
            id_or_null(req@.id),
            crate::tools::CODE_INVALID_REQUEST as int,
            "Invalid Request"@,
        )),
        req@.jsonrpc == "2.0"@ && req@.id is None ==> (r matches DispatchStep::Ack(resp) && resp@
            == spec_ack()),
        req@.id matches Some(idv) ==> req@.jsonrpc == "2.0"@ ==> if req@.method == "initialize"@ {
            r matches DispatchStep::Reply(resp) && resp@ == spec_response_ok(
                idv,
                spec_init_result(),
            )
        } else if req@.method == "tools/list"@ {
            r matches DispatchStep::Reply(resp) && resp@ == spec_response_ok(
                idv,
                spec_list_result(),
            )
        } else if req@.method == "tools/call"@ {
            match req@.params {
                None => r matches DispatchStep::Reply(resp) && resp@ == spec_response_err(
                    idv,
                    crate::tools::CODE_INVALID_PARAMS as int,
                    "Invalid params"@,
                ),
                Some(p) => match spec_call_name(p) {
                    None => r matches DispatchStep::Reply(resp) && resp@ == spec_response_err(
                        idv,
                        crate::tools::CODE_INVALID_PARAMS as int,
                        "Invalid params"@,
                    ),
                    Some(name) => spec_call_dispatched(
                        old(service).counter,
                        idv,
                        name,
                        spec_call_args(p),
                        r,
                    ),
                },
            }
        } else {
            r matches DispatchStep::Reply(resp) && resp@ == spec_response_err(
                idv,
                crate::tools::CODE_METHOD_NOT_FOUND as int,
                "Method not found"@,
            )
        },
{
    proof {
        reveal_strlit("2.0");
        reveal_strlit("initialize");
        reveal_strlit("tools/list");
        reveal_strlit("tools/call");
        assert(("initialize"@).len() == 10);
        assert(("tools/list"@).len() == 10);
        assert(("tools/call"@).len() == 10);
        assert(("initialize"@)[0] != ("tools/list"@)[0]);
        assert(("initialize"@)[0] != ("tools/call"@)[0]);
        assert(("tools/list"@)[6] != ("tools/call"@)[6]);
    }
    if !str_eq(req.jsonrpc.as_str(), "2.0") {
        let id = match req.id {
            Some(v) => v,
            None => JsonValue::Null,
        };
        return DispatchStep::Reply(
            response_err(id, crate::tools::CODE_INVALID_REQUEST, "Invalid Request"),
        );
    }
    let id = match req.id {
        None => {
            return DispatchStep::Ack(response_ok(JsonValue::Null, crate::json::jobj0()));
        },
        Some(v) => v,
    };
    if str_eq(req.method.as_str(), "initialize") {
        DispatchStep::Reply(response_ok(id, init_result(service)))
    } else if str_eq(req.method.as_str(), "tools/list") {
        DispatchStep::Reply(response_ok(id, list_result(service)))
    } else if str_eq(req.method.as_str(), "tools/call") {
        match req.params {
            None => DispatchStep::Reply(
                response_err(id, crate::tools::CODE_INVALID_PARAMS, "Invalid params"),
            ),
            Some(p) => {
                let name = match p.get("name") {
                    Some(v) => match v.as_str() {
                        Some(s) => s.clone(),
                        None => {
                            return DispatchStep::Reply(
                                response_err(
                                    id,
                                    crate::tools::CODE_INVALID_PARAMS,
                                    "Invalid params",
                                ),
                            );
                        },
                    },
                    None => {
                        return DispatchStep::Reply(
                            response_err(id, crate::tools::CODE_INVALID_PARAMS, "Invalid params"),
                        );
                    },
                };
                let empty_args = crate::json::jobj0();
                let args = match p.get("arguments") {
                    Some(a) => a,
                    None => &empty_args,
                };
                let ghost idv = id@;
                match service.call_tool(name.as_str(), args) {
                    crate::tools::ToolOutcome::Done(out) => {
                        let ghost outv: Result<
                            Seq<crate::tools::ContentV>,
                            crate::tools::RpcErrorV,
                        > = match &out {
                            Ok(res) => Ok(res@),
                            Err(e) => Err(e@),
                        };
                        let resp = call_reply(id, out);
                        proof {
                            if name@ == "current_time"@ {
                                assert(crate::tools::time_result(outv->Ok_0) && resp@
                                    == spec_call_reply(idv, Ok(outv->Ok_0)));
                            }
                            if name@ == "roll_dice"@ && crate::dto::spec_dice_args(args@)
                                is Some {
                                let k = crate::dto::spec_dice_args(args@)->0;
                                assert(crate::tools::dice_roll_result(outv->Ok_0, k) && resp@
                                    == spec_call_reply(idv, Ok(outv->Ok_0)));
                            }
                        }
                        DispatchStep::Reply(resp)
                    },
                    crate::tools::ToolOutcome::Fetch(url) => DispatchStep::Fetch { id, url },
                }
            },
        }
    } else {
        DispatchStep::Reply(
            response_err(id, crate::tools::CODE_METHOD_NOT_FOUND, "Method not found"),
        )
    }
}

/// Finishes a dispatched docs fetch: wraps what the docs tool makes of the
/// observed outcome into the response for the request that asked for it.
pub fn dispatch_fetched(id: JsonValue, url: &str, event: crate::tools::FetchEvent) -> (r:
    JsonValue)
    ensures
        event matches crate::tools::FetchEvent::ConnectFailed(e) ==> r@ == spec_call_reply(
            id@,
            Err(
                crate::tools::RpcErrorV {
                    code: crate::tools::CODE_INTERNAL_ERROR as int,
                    message: "Failed to fetch Cedra docs: "@ + e@,
                },
            ),
        ),
        event matches crate::tools::FetchEvent::ReadFailed(e) ==> r@ == spec_call_reply(
            id@,
            Err(
                crate::tools::RpcErrorV {
                    code: crate::tools::CODE_INTERNAL_ERROR as int,
                    message: e@,
                },
            ),
        ),
        event matches crate::tools::FetchEvent::Response(status, body) ==> if 200 <= status
            < 300 {
            r@ == spec_call_reply(
                id@,
                Ok(
                    seq![
                        crate::tools::ContentV::Text(
                            crate::tools::docs_success_text(url@, body@),
                        ),
                    ],
                ),
            )
        } else {
            r@ == spec_call_reply(
                id@,
                Err(
                    crate::tools::RpcErrorV {
                        code: crate::tools::CODE_INTERNAL_ERROR as int,
                        message: "Cedra docs returned status "@ + crate::text::dec_str(
                            status as int,
                        ),
                    },
                ),
            )
        },
{
    let out = crate::tools::ToolService::docs_response(url, event);
    call_reply(id, out)
}

/// Seconds between keepalive comment events on an event stream.
pub const KEEPALIVE_COMMENT_SECS: u64 = 30;

/// Seconds between protocol-level heartbeats on an event stream.
pub const KEEPALIVE_HEARTBEAT_SECS: u64 = 15;

} // verus!
