//! The tool service: the shared counter, the executors behind every tool the
//! registry advertises, and the docs fetch-and-summarize pipeline around the
//! outbound HTTP call that a transport performs on the library's behalf.
use vstd::prelude::*;
use rand::Rng;
use crate::dto::{CedraDocsArgs, DiceArgs, EchoArgs, ReverseArgs};
use crate::text::{dec_str, reverse_chars, u64_to_string};

verus! {

/// Invalid request: the envelope is not a well-formed JSON-RPC 2.0 request.
pub const CODE_INVALID_REQUEST: i64 = -32600;

/// Method not found: the request names no known method.
pub const CODE_METHOD_NOT_FOUND: i64 = -32601;

/// Invalid params: the parameters are rejected, or the tool is unknown.
pub const CODE_INVALID_PARAMS: i64 = -32602;

/// Internal error: a tool failed while executing.
pub const CODE_INTERNAL_ERROR: i64 = -32603;

/// The model of a protocol error.
#[verifier::ext_equal]
pub struct RpcErrorV {
    pub code: int,
    pub message: Seq<char>,
}

/// A protocol error: a code from the fixed enumeration and a message.
#[derive(Debug)]
pub struct RpcError {
    pub code: i64,
    pub message: String,
}

impl View for RpcError {
    type V = RpcErrorV;

    open spec fn view(&self) -> RpcErrorV {
        RpcErrorV { code: self.code as int, message: self.message@ }
    }
}

impl RpcError {
    /// An invalid-params error.
    pub fn invalid_params(msg: &str) -> (r: RpcError)
        ensures
            r@ == (RpcErrorV { code: CODE_INVALID_PARAMS as int, message: msg@ }),
    {
        RpcError { code: CODE_INVALID_PARAMS, message: String::from_str(msg) }
    }

    /// An internal error.
    pub fn internal_error(msg: String) -> (r: RpcError)
        ensures
            r@ == (RpcErrorV { code: CODE_INTERNAL_ERROR as int, message: msg@ }),
    {
        RpcError { code: CODE_INTERNAL_ERROR, message: msg }
    }
}

/// The model of one content block.
#[verifier::ext_equal]
pub enum ContentV {
    Text(Seq<char>),
    Unsupported,
}

/// One block of tool output. Only text is implemented; every other content
/// kind degrades to a placeholder text block on the wire.
#[derive(Debug)]
pub enum Content {
    Text(String),
    Unsupported,
}

impl View for Content {
    type V = ContentV;

    open spec fn view(&self) -> ContentV {
        match self {
            Content::Text(s) => ContentV::Text(s@),
            Content::Unsupported => ContentV::Unsupported,
        }
    }
}

impl DeepView for Content {
    type V = ContentV;

    open spec fn deep_view(&self) -> ContentV {
        self.view()
    }
}

impl Content {
    /// A text block.
    pub fn text(s: String) -> (r: Content)
        ensures
            r@ == ContentV::Text(s@),
    {
        Content::Text(s)
    }
}

/// What a successful tool call returns: an ordered sequence of content
/// blocks.
#[derive(Debug)]
pub struct CallToolResult {
    pub content: Vec<Content>,
}

impl View for CallToolResult {
    type V = Seq<ContentV>;

    open spec fn view(&self) -> Seq<ContentV> {
        self.content.deep_view()
    }
}

impl CallToolResult {
    /// A successful result holding the given blocks.
    pub fn success(content: Vec<Content>) -> (r: CallToolResult)
        ensures
            r@ == content.deep_view(),
    {
        CallToolResult { content }
    }
}

/// A result of one text block.
pub fn text_result(s: String) -> (r: CallToolResult)
    ensures
        r@ == seq![ContentV::Text(s@)],
{
    let mut content: Vec<Content> = Vec::new();
    content.push(Content::text(s));
    let r = CallToolResult::success(content);
    proof {
        assert(r@ =~= seq![ContentV::Text(s@)]);
    }
    r
}

/// The requested side count, raised to the minimum of two.
pub open spec fn spec_clamp_sides(k: u8) -> u8 {
    if k < 2 {
        2
    } else {
        k
    }
}

/// The text reported for one dice roll.
pub open spec fn dice_text(v: int, s: int) -> Seq<char> {
    "Rolled "@ + dec_str(v) + " on a d"@ + dec_str(s)
}

/// What a roll with requested side count `k` may report: one text block
/// naming some drawn value between one and the clamped side count, and the
/// clamped side count itself.
pub open spec fn dice_roll_result(res: Seq<ContentV>, k: u8) -> bool {
    exists|v: u8|
        1 <= v <= spec_clamp_sides(k) && res == seq![
            ContentV::Text(dice_text(v as int, spec_clamp_sides(k) as int)),
        ]
}

/// Relies on rand's `thread_rng` and `Rng::gen_range` over `1..=sides`: the
/// draw lies in the inclusive range, and the range is non-empty, so the call
/// does not panic. Nothing more is assumed of the draw.
#[verifier::external_body]
fn roll_in_range(sides: u8) -> (r: u8)
    requires
        sides >= 1,
    ensures
        1 <= r <= sides,
{
    rand::thread_rng().gen_range(1..=sides)
}

/// What the clock tool reports: one text block holding a timestamp of the
/// emitted shape.
pub open spec fn time_result(res: Seq<ContentV>) -> bool {
    res.len() == 1 && res[0] is Text && rfc3339_utc_shape(res[0]->Text_0)
}

/// A decimal digit character.
pub open spec fn is_dec_digit(c: char) -> bool {
    '0' <= c <= '9'
}

/// Whether `n` decimal digits stand at offset `i`.
pub open spec fn digits_at(t: Seq<char>, i: int, n: int) -> bool {
    forall|k: int| i <= k < i + n ==> is_dec_digit(#[trigger] t[k])
}

/// The value of the two digits at offset `i`.
pub open spec fn two_digits_val(t: Seq<char>, i: int) -> int {
    (t[i] as int - '0' as int) * 10 + (t[i + 1] as int - '0' as int)
}

/// An RFC 3339 date `YYYY-MM-DD`: a four-digit year — or, for an instant
/// outside the four-digit range, a sign followed by a wider all-digit year —
/// then a two-digit month and day in range.
pub open spec fn rfc3339_date_shape(d: Seq<char>) -> bool {
    &&& d.len() >= 10
    &&& d[d.len() - 6] == '-'
    &&& d[d.len() - 3] == '-'
    &&& digits_at(d, d.len() - 5, 2)
    &&& digits_at(d, d.len() - 2, 2)
    &&& 1 <= two_digits_val(d, d.len() - 5) <= 12
    &&& 1 <= two_digits_val(d, d.len() - 2) <= 31
    &&& if d.len() == 10 {
        digits_at(d, 0, 4)
    } else {
        (d[0] == '+' || d[0] == '-') && digits_at(d, 1, d.len() - 7)
    }
}

/// An RFC 3339 time `HH:MM:SS`, in range (a leap second reads `60`),
/// optionally followed by a fraction of exactly three, six or nine digits.
pub open spec fn rfc3339_time_shape(x: Seq<char>) -> bool {
    &&& x.len() >= 8
    &&& digits_at(x, 0, 2)
    &&& x[2] == ':'
    &&& digits_at(x, 3, 2)
    &&& x[5] == ':'
    &&& digits_at(x, 6, 2)
    &&& two_digits_val(x, 0) <= 23
    &&& two_digits_val(x, 3) <= 59
    &&& two_digits_val(x, 6) <= 60
    &&& (x.len() == 8 || (x[8] == '.' && digits_at(x, 9, x.len() - 9) && (x.len() == 12 || x.len()
        == 15 || x.len() == 18)))
}

/// The shape of every timestamp this server emits: an RFC 3339 date, the `T`
/// separator, an RFC 3339 time, and the zero UTC offset `+00:00`.
pub open spec fn rfc3339_utc_shape(t: Seq<char>) -> bool {
    &&& t.len() >= 25
    &&& t.subrange(t.len() - 6, t.len() as int) == "+00:00"@
    &&& exists|i: int|
        10 <= i < t.len() - 6 && #[trigger] t[i] == 'T' && rfc3339_date_shape(t.take(i))
            && rfc3339_time_shape(t.subrange(i + 1, t.len() - 6))
}

/// Relies on chrono's `Utc::now().to_rfc3339()`: it writes a four-digit
/// year (a signed wider one only for instants outside that range), two-digit
/// month and day, `T`, two-digit hour, minute and second with colons, a
/// fraction of three, six or nine digits when the instant has subsecond
/// precision, and — the zone being UTC — the offset exactly `+00:00`.
#[verifier::external_body]
fn now_rfc3339() -> (r: String)
    ensures
        rfc3339_utc_shape(r@),
{
    chrono::Utc::now().to_rfc3339()
}

/// The tool service: the one piece of state a tool may touch. A transport
/// serializes access to it (requests on one connection are handled to
/// completion in order; concurrent connections share it behind a lock held
/// only for the duration of a call).
pub struct ToolService {
    /// The shared counter; starts at zero and only ever moves up by one.
    pub counter: u32,
}

impl ToolService {
    /// A fresh service with the counter at zero.
    pub fn new() -> (r: Self)
        ensures
            r.counter == 0,
    {
        ToolService { counter: 0 }
    }

    /// Returns the message unchanged as one text block.
    pub fn echo(&self, args: EchoArgs) -> (r: Result<CallToolResult, RpcError>)
        ensures
            r is Ok,
            r->Ok_0@ == seq![ContentV::Text(args.message@)],
    {
        Ok(text_result(args.message))
    }

    /// Returns the text with its characters in reverse order; code points are
    /// reordered whole, so no multi-byte character is ever split.
    pub fn reverse_text(&self, args: ReverseArgs) -> (r: Result<CallToolResult, RpcError>)
        ensures
            r is Ok,
            r->Ok_0@ == seq![ContentV::Text(args.text@.reverse())],
    {
        Ok(text_result(reverse_chars(args.text.as_str())))
    }

    /// Adds one to the counter and returns the new value as text. The counter
    /// never moves any other way, so it is monotonically non-decreasing for
    /// the life of the process.
    pub fn increment(&mut self) -> (r: Result<CallToolResult, RpcError>)
        requires
            old(self).counter < u32::MAX,
        ensures
            final(self).counter == old(self).counter + 1,
            r is Ok,
            r->Ok_0@ == seq![ContentV::Text(dec_str(old(self).counter + 1))],
    {
        self.counter = self.counter + 1;
        Ok(text_result(u64_to_string(self.counter as u64)))
    }

    /// Returns the current instant as an RFC 3339 date-time with zero UTC
    /// offset.
    pub fn current_time(&self) -> (r: Result<CallToolResult, RpcError>)
        ensures
            r is Ok,
            time_result(r->Ok_0@),
    {
        Ok(text_result(now_rfc3339()))
    }

    /// Rolls a die: any requested side count below two is raised to two, the
    /// drawn value lies between one and the (possibly raised) side count, and
    /// the reported text names both.
    pub fn roll_dice(&self, args: DiceArgs) -> (r: Result<CallToolResult, RpcError>)
        ensures
            r is Ok,
            dice_roll_result(r->Ok_0@, args.sides),
    {
        let sides = if args.sides < 2 {
            2
        } else {
            args.sides
        };
        let value = roll_in_range(sides);
        let mut msg = String::from_str("Rolled ");
        msg.append(u64_to_string(value as u64).as_str());
        msg.append(" on a d");
        msg.append(u64_to_string(sides as u64).as_str());
        let r = text_result(msg);
        proof {
            assert(msg@ == dice_text(value as int, sides as int));
            assert(1 <= value <= spec_clamp_sides(args.sides) && r@ == seq![
                ContentV::Text(dice_text(value as int, spec_clamp_sides(args.sides) as int)),
            ]);
        }
        Ok(r)
    }
}

/// The sequence of counter states across a run of increment calls, next to
/// the values those calls return.
///
/// Law: when `n` increment calls are served one at a time — the contract of
/// `increment` forces each call to read the counter, add one, and return the
/// new value before the next call runs — the final counter equals the initial
/// value plus `n`, and the returned values are exactly `initial+1` up to
/// `initial+n`, in order and without duplicates.
pub proof fn lemma_increment_sequence(cs: Seq<int>, rs: Seq<int>)
    requires
        cs.len() == rs.len() + 1,
        forall|i: int| 0 <= i < rs.len() ==> #[trigger] cs[i + 1] == cs[i] + 1,
        forall|i: int| 0 <= i < rs.len() ==> rs[i] == cs[i] + 1,
    ensures
        cs.last() == cs[0] + rs.len(),
        forall|i: int| 0 <= i < rs.len() ==> rs[i] == cs[0] + i + 1,
        forall|i: int, j: int| 0 <= i < j < rs.len() ==> rs[i] != rs[j],
        forall|k: int| cs[0] + 1 <= k <= cs[0] + rs.len() ==> rs.contains(k),
{
    assert forall|i: int| 0 <= i < cs.len() implies #[trigger] cs[i] == cs[0] + i by {
        lemma_counter_chain(cs, rs.len() as int, i);
    }
    assert forall|k: int| cs[0] + 1 <= k <= cs[0] + rs.len() implies rs.contains(k) by {
        let idx = k - cs[0] - 1;
        assert(rs[idx] == k);
    }
}

/// What summarizing leaves of a text under a character budget: a short text
/// stays as it is; a longer one is cut to the budget less the ellipsis and
/// the ellipsis is appended.
pub open spec fn spec_summarize(s: Seq<char>, max: int) -> Seq<char> {
    if s.len() <= max {
        s
    } else {
        s.take(
            if max < 3 {
                0
            } else {
                max - 3
            },
        ) + "..."@
    }
}

/// Law: under any budget of at least the ellipsis length, a text within the
/// budget is returned unchanged, and a longer text is cut to exactly the
/// budget and ends in the ellipsis marker.
pub proof fn lemma_summarize_budget(s: Seq<char>, max: int)
    requires
        3 <= max,
    ensures
        s.len() <= max ==> spec_summarize(s, max) == s,
        s.len() > max ==> spec_summarize(s, max).len() == max,
        s.len() > max ==> spec_summarize(s, max).subrange(max - 3, max) == "..."@,
{
    reveal_strlit("...");
    if s.len() > max {
        assert(spec_summarize(s, max).subrange(max - 3, max) =~= "..."@);
    }
}

/// The text chunks a selector query yields on a document; what is assumed of
/// scraper, named but never spelled out.
pub uninterp spec fn selected_texts(html: Seq<char>, selector: Seq<char>) -> Option<
    Seq<Seq<char>>,
>;

/// The text chunks of the whole parsed document.
pub uninterp spec fn document_texts(html: Seq<char>) -> Seq<Seq<char>>;

/// The chunks a selector yields, or nothing where the selector is rejected.
pub open spec fn texts_or_empty(html: Seq<char>, selector: Seq<char>) -> Seq<Seq<char>> {
    match selected_texts(html, selector) {
        Some(ts) => ts,
        None => Seq::empty(),
    }
}

/// What extraction sees before whitespace collapsing: the text under the
/// first of `main`, `article`, `body` that holds any, each chunk followed by
/// one space; or the whole document's chunks joined with spaces when none
/// does.
pub open spec fn spec_raw_extract(html: Seq<char>) -> Seq<char> {
    let m = crate::text::concat_spaced(texts_or_empty(html, "main"@));
    let a = crate::text::concat_spaced(texts_or_empty(html, "article"@));
    let b = crate::text::concat_spaced(texts_or_empty(html, "body"@));
    if m.len() > 0 {
        m
    } else if a.len() > 0 {
        a
    } else if b.len() > 0 {
        b
    } else {
        crate::text::join_spaced(document_texts(html))
    }
}

/// Relies on scraper's `Selector::parse`, `Html::parse_document`,
/// `Html::select` and `ElementRef::text`: parsing and selection are
/// deterministic, so the chunks are a function of the document and the
/// selector alone.
#[verifier::external_body]
fn scraper_select_texts(html: &str, selector: &str) -> (r: Option<Vec<String>>)
    ensures
        r.deep_view() == selected_texts(html@, selector@),
{
    let sel = match scraper::Selector::parse(selector) {
        Ok(s) => s,
        Err(_) => return None,
    };
    let doc = scraper::Html::parse_document(html);
    let mut out: Vec<String> = Vec::new();
    for element in doc.select(&sel) {
        for t in element.text() {
            out.push(t.to_string());
        }
    }
    Some(out)
}

/// Relies on scraper's `Html::parse_document` and `ElementRef::text` on the
/// root element: the whole document's text chunks, a function of the
/// document alone.
#[verifier::external_body]
fn scraper_doc_texts(html: &str) -> (r: Vec<String>)
    ensures
        r.deep_view() == document_texts(html@),
{
    let doc = scraper::Html::parse_document(html);
    let mut out: Vec<String> = Vec::new();
    for t in doc.root_element().text() {
        out.push(t.to_string());
    }
    out
}

/// What the transport observed while fetching one URL on the library's
/// behalf.
pub enum FetchEvent {
    /// The request could not be sent or no response arrived; the cause.
    ConnectFailed(String),
    /// A response arrived but reading its body failed; the cause.
    ReadFailed(String),
    /// A response arrived: its status code and its body.
    Response(u16, String),
}

/// The text block reported for a successfully fetched page.
pub open spec fn docs_success_text(url: Seq<char>, body: Seq<char>) -> Seq<char> {
    "Source: "@ + url + "\n\n"@ + spec_summarize(
        crate::text::collapse_ws(spec_raw_extract(body)),
        1200,
    )
}

impl ToolService {
    /// Truncates a text to the character budget, marking any truncation with
    /// an ellipsis.
    pub fn summarize_text(text: &str, max_length: usize) -> (r: String)
        ensures
            r@ == spec_summarize(text@, max_length as int),
    {
        let n = text.unicode_len();
        if n <= max_length {
            String::from_str(text)
        } else {
            let k = if max_length < 3 {
                0
            } else {
                max_length - 3
            };
            let mut out = String::from_str(text.substring_char(0, k));
            out.append("...");
            out
        }
    }

    /// Checks a docs path and joins it onto the fixed docs origin: a path
    /// that embeds an absolute URL scheme is rejected as invalid params; any
    /// other path is joined, its leading slashes deduplicated, onto
    /// `https://docs.cedra.network/`.
    pub fn build_docs_url(&self, path: &str) -> (r: Result<String, RpcError>)
        ensures
            ({
                let t = crate::text::trim_spec(path@);
                if crate::text::has_prefix(t, "http://"@) || crate::text::has_prefix(
                    t,
                    "https://"@,
                ) {
                    r is Err && r->Err_0@ == (RpcErrorV {
                        code: CODE_INVALID_PARAMS as int,
                        message: "Path must be relative to docs.cedra.network"@,
                    })
                } else {
                    r is Ok && r->Ok_0@ == "https://docs.cedra.network/"@
                        + crate::text::skip_leading(t, '/')
                }
            }),
    {
        let trimmed = crate::text::trim(path);
        if crate::text::str_starts_with(trimmed, "http://") || crate::text::str_starts_with(
            trimmed,
            "https://",
        ) {
            return Err(RpcError::invalid_params("Path must be relative to docs.cedra.network"));
        }
        let cleaned = crate::text::trim_start_matches_char(trimmed, '/');
        let mut url = String::from_str("https://docs.cedra.network/");
        url.append(cleaned);
        Ok(url)
    }

    /// Extracts the visible text of a page: the first of the `main`,
    /// `article`, `body` regions that holds any text, the whole document
    /// where none does, with every whitespace run collapsed to one space.
    pub fn extract_text_from_html(html: &str) -> (r: String)
        ensures
            r@ == crate::text::collapse_ws(spec_raw_extract(html@)),
    {
        let mut content = String::new();
        match scraper_select_texts(html, "main") {
            Some(ts) => {
                crate::text::append_spaced(&mut content, &ts);
                proof {
                    assert(content@ =~= crate::text::concat_spaced(
                        texts_or_empty(html@, "main"@),
                    ));
                }
            },
            None => {},
        }
        if content.as_str().unicode_len() == 0 {
            match scraper_select_texts(html, "article") {
                Some(ts) => {
                    crate::text::append_spaced(&mut content, &ts);
                    proof {
                        assert(content@ =~= crate::text::concat_spaced(
                            texts_or_empty(html@, "article"@),
                        ));
                    }
                },
                None => {},
            }
        }
        if content.as_str().unicode_len() == 0 {
            match scraper_select_texts(html, "body") {
                Some(ts) => {
                    crate::text::append_spaced(&mut content, &ts);
                    proof {
                        assert(content@ =~= crate::text::concat_spaced(
                            texts_or_empty(html@, "body"@),
                        ));
                    }
                },
                None => {},
            }
        }
        if content.as_str().unicode_len() == 0 {
            let ts = scraper_doc_texts(html);
            content = crate::text::join_strings_spaced(&ts);
        }
        proof {
            assert(content@ == spec_raw_extract(html@));
        }
        crate::text::collapse_whitespace(content.as_str())
    }

    /// Begins a docs read: checks the path and names the URL to fetch. The
    /// transport performs the GET — the one suspension point of this tool —
    /// and hands what it saw to [`ToolService::docs_response`].
    pub fn read_cedra_docs(&self, args: &CedraDocsArgs) -> (r: Result<String, RpcError>)
        ensures
            ({
                let t = crate::text::trim_spec(args.path@);
                if crate::text::has_prefix(t, "http://"@) || crate::text::has_prefix(
                    t,
                    "https://"@,
                ) {
                    r is Err && r->Err_0@ == (RpcErrorV {
                        code: CODE_INVALID_PARAMS as int,
                        message: "Path must be relative to docs.cedra.network"@,
                    })
                } else {
                    r is Ok && r->Ok_0@ == "https://docs.cedra.network/"@
                        + crate::text::skip_leading(t, '/')
                }
            }),
    {
        self.build_docs_url(args.path.as_str())
    }

    /// Finishes a docs read from what the transport observed: a transport
    /// failure or an unreadable body becomes an internal error carrying the
    /// cause, a non-success status an internal error naming the status, and
    /// a success the source URL plus the extracted, summarized page text.
    pub fn docs_response(url: &str, event: FetchEvent) -> (r: Result<CallToolResult, RpcError>)
        ensures
            event matches FetchEvent::ConnectFailed(e) ==> r is Err && r->Err_0@ == (RpcErrorV {
                code: CODE_INTERNAL_ERROR as int,
                message: "Failed to fetch Cedra docs: "@ + e@,
            }),
            event matches FetchEvent::ReadFailed(e) ==> r is Err && r->Err_0@ == (RpcErrorV {
                code: CODE_INTERNAL_ERROR as int,
                message: e@,
            }),
            event matches FetchEvent::Response(status, body) ==> if 200 <= status < 300 {
                r is Ok && r->Ok_0@ == seq![ContentV::Text(docs_success_text(url@, body@))]
            } else {
                r is Err && r->Err_0@ == (RpcErrorV {
                    code: CODE_INTERNAL_ERROR as int,
                    message: "Cedra docs returned status "@ + dec_str(status as int),
                })
            },
    {
        match event {
            FetchEvent::ConnectFailed(e) => {
                let mut msg = String::from_str("Failed to fetch Cedra docs: ");
                msg.append(e.as_str());
                Err(RpcError::internal_error(msg))
            },
            FetchEvent::ReadFailed(e) => Err(RpcError::internal_error(e)),
            FetchEvent::Response(status, body) => {
                if 200 <= status && status < 300 {
                    let extracted = Self::extract_text_from_html(body.as_str());
                    let summary = Self::summarize_text(extracted.as_str(), 1200);
                    let mut msg = String::from_str("Source: ");
                    msg.append(url);
                    msg.append("\n\n");
                    msg.append(summary.as_str());
                    Ok(text_result(msg))
                } else {
                    let mut msg = String::from_str("Cedra docs returned status ");
                    msg.append(u64_to_string(status as u64).as_str());
                    Err(RpcError::internal_error(msg))
                }
            },
        }
    }
}

/// The model of one tool descriptor.
#[verifier::ext_equal]
pub struct ToolDescV {
    pub name: Seq<char>,
    pub description: Seq<char>,
    pub input_schema: crate::json::JsonVal,
}

/// One advertised tool: its stable name, its description, and the schema of
/// its arguments. Immutable once the registry is built.
pub struct ToolDescriptor {
    pub name: String,
    pub description: String,
    pub input_schema: crate::json::JsonValue,
}

impl View for ToolDescriptor {
    type V = ToolDescV;

    open spec fn view(&self) -> ToolDescV {
        ToolDescV {
            name: self.name@,
            description: self.description@,
            input_schema: self.input_schema@,
        }
    }
}

impl DeepView for ToolDescriptor {
    type V = ToolDescV;

    open spec fn deep_view(&self) -> ToolDescV {
        self.view()
    }
}

/// The schema of an object argument record: its properties and which of them
/// are required.
pub open spec fn spec_schema(
    props: Seq<(Seq<char>, crate::json::JsonVal)>,
    required: Seq<crate::json::JsonVal>,
) -> crate::json::JsonVal {
    crate::json::JsonVal::Obj(
        seq![
            ("type"@, crate::json::JsonVal::Str("object"@)),
            ("properties"@, crate::json::JsonVal::Obj(props)),
            ("required"@, crate::json::JsonVal::Arr(required)),
        ],
    )
}

/// The schema of one string-typed property.
pub open spec fn spec_string_prop() -> crate::json::JsonVal {
    crate::json::JsonVal::Obj(seq![("type"@, crate::json::JsonVal::Str("string"@))])
}

/// The schema of one integer-typed property.
pub open spec fn spec_integer_prop() -> crate::json::JsonVal {
    crate::json::JsonVal::Obj(seq![("type"@, crate::json::JsonVal::Str("integer"@))])
}

/// The full registry, in the stable order `tools/list` reports.
pub open spec fn spec_registry() -> Seq<ToolDescV> {
    seq![
        ToolDescV {
            name: "echo"@,
            description: "Echo back the provided message."@,
            input_schema: spec_schema(
                seq![("message"@, spec_string_prop())],
                seq![crate::json::JsonVal::Str("message"@)],
            ),
        },
        ToolDescV {
            name: "reverse_text"@,
            description: "Reverse a piece of text."@,
            input_schema: spec_schema(
                seq![("text"@, spec_string_prop())],
                seq![crate::json::JsonVal::Str("text"@)],
            ),
        },
        ToolDescV {
            name: "increment"@,
            description: "Increment an in-memory counter and return the new value."@,
            input_schema: spec_schema(Seq::empty(), Seq::empty()),
        },
        ToolDescV {
            name: "current_time"@,
            description: "Return the current UTC time in RFC3339 format."@,
            input_schema: spec_schema(Seq::empty(), Seq::empty()),
        },
        ToolDescV {
            name: "roll_dice"@,
            description: "Roll a die with the provided number of sides (defaults to six-sided)."@,
            input_schema: spec_schema(seq![("sides"@, spec_integer_prop())], Seq::empty()),
        },
        ToolDescV {
            name: "read_cedra_docs"@,
            description: "Read Cedra developer docs and return the main content for a given path."@,
            input_schema: spec_schema(
                seq![("path"@, spec_string_prop())],
                seq![crate::json::JsonVal::Str("path"@)],
            ),
        },
    ]
}

/// Law: registry names are unique — every tool name accepted by `tools/call`
/// resolves to exactly one entry.
pub proof fn lemma_registry_unique_names()
    ensures
        forall|i: int, j: int|
            0 <= i < j < spec_registry().len() ==> spec_registry()[i].name
                != spec_registry()[j].name,
{
    reveal_strlit("echo");
    reveal_strlit("reverse_text");
    reveal_strlit("increment");
    reveal_strlit("current_time");
    reveal_strlit("roll_dice");
    reveal_strlit("read_cedra_docs");
    let r = spec_registry();
    assert forall|i: int, j: int| 0 <= i < j < r.len() implies r[i].name != r[j].name by {
        assert(("echo"@).len() == 4);
        assert(("reverse_text"@).len() == 12);
        assert(("increment"@).len() == 9);
        assert(("current_time"@).len() == 12);
        assert(("roll_dice"@).len() == 9);
        assert(("read_cedra_docs"@).len() == 15);
        assert(("reverse_text"@)[0] != ("current_time"@)[0]);
        assert(("increment"@)[0] != ("roll_dice"@)[0]);
    }
}

fn string_prop() -> (r: crate::json::JsonValue)
    ensures
        r@ == spec_string_prop(),
{
    crate::json::jobj1("type", crate::json::jstr("string"))
}

fn integer_prop() -> (r: crate::json::JsonValue)
    ensures
        r@ == spec_integer_prop(),
{
    crate::json::jobj1("type", crate::json::jstr("integer"))
}

fn schema1(key: &str, prop: crate::json::JsonValue, req: bool) -> (r: crate::json::JsonValue)
    ensures
        r@ == spec_schema(
            seq![(key@, prop@)],
            if req {
                seq![crate::json::JsonVal::Str(key@)]
            } else {
                Seq::empty()
            },
        ),
{
    let mut required: Vec<crate::json::JsonValue> = Vec::new();
    if req {
        required.push(crate::json::jstr(key));
    }
    let ghost expected = if req {
        seq![crate::json::JsonVal::Str(key@)]
    } else {
        Seq::<crate::json::JsonVal>::empty()
    };
    proof {
        assert(required.deep_view() =~= expected);
    }
    crate::json::jobj3(
        "type",
        crate::json::jstr("object"),
        "properties",
        crate::json::jobj1(key, prop),
        "required",
        crate::json::jarr(required),
    )
}

fn schema0() -> (r: crate::json::JsonValue)
    ensures
        r@ == spec_schema(Seq::empty(), Seq::empty()),
{
    let required: Vec<crate::json::JsonValue> = Vec::new();
    proof {
        assert(required.deep_view() =~= Seq::<crate::json::JsonVal>::empty());
    }
    crate::json::jobj3(
        "type",
        crate::json::jstr("object"),
        "properties",
        crate::json::jobj0(),
        "required",
        crate::json::jarr(required),
    )
}

fn descriptor(name: &str, description: &str, input_schema: crate::json::JsonValue) -> (r:
    ToolDescriptor)
    ensures
        r@ == (ToolDescV { name: name@, description: description@, input_schema: input_schema@ }),
{
    ToolDescriptor {
        name: String::from_str(name),
        description: String::from_str(description),
        input_schema,
    }
}

/// The static identity and capabilities returned by `initialize`: only the
/// tool capability is ever advertised.
pub struct ServerInfo {
    pub protocol_version: String,
    pub name: String,
    pub version: String,
    pub instructions: String,
}

impl ToolService {
    /// The registry listing, in its stable order.
    pub fn available_tools(&self) -> (r: Vec<ToolDescriptor>)
        ensures
            r.deep_view() == spec_registry(),
    {
        let mut tools: Vec<ToolDescriptor> = Vec::new();
        tools.push(
            descriptor("echo", "Echo back the provided message.", schema1(
                "message",
                string_prop(),
                true,
            )),
        );
        tools.push(
            descriptor("reverse_text", "Reverse a piece of text.", schema1(
                "text",
                string_prop(),
                true,
            )),
        );
        tools.push(
            descriptor(
                "increment",
                "Increment an in-memory counter and return the new value.",
                schema0(),
            ),
        );
        tools.push(
            descriptor("current_time", "Return the current UTC time in RFC3339 format.", schema0()),
        );
        tools.push(
            descriptor(
                "roll_dice",
                "Roll a die with the provided number of sides (defaults to six-sided).",
                schema1("sides", integer_prop(), false),
            ),
        );
        tools.push(
            descriptor(
                "read_cedra_docs",
                "Read Cedra developer docs and return the main content for a given path.",
                schema1("path", string_prop(), true),
            ),
        );
        proof {
            assert(tools.deep_view() =~= spec_registry());
        }
        tools
    }

    /// The static server identity.
    pub fn get_info(&self) -> (r: ServerInfo)
        ensures
            r.protocol_version@ == "2025-03-26"@,
            r.name@ == "inferenco-mcp"@,
            r.version@ == "0.1.0"@,
            r.instructions@
                == "A minimal MCP tool server. Provides echo, text transformation, dice roll, clock, Cedra docs reader, and counter tools without any API key requirements."@,
    {
        ServerInfo {
            protocol_version: String::from_str(crate::protocol_version()),
            name: String::from_str("inferenco-mcp"),
            version: String::from_str("0.1.0"),
            instructions: String::from_str(
                "A minimal MCP tool server. Provides echo, text transformation, dice roll, clock, Cedra docs reader, and counter tools without any API key requirements.",
            ),
        }
    }

    /// Server info for initialization.
    pub fn get_server_info(&self) -> (r: ServerInfo)
        ensures
            r.protocol_version@ == "2025-03-26"@,
            r.name@ == "inferenco-mcp"@,
            r.version@ == "0.1.0"@,
            r.instructions@
                == "A minimal MCP tool server. Provides echo, text transformation, dice roll, clock, Cedra docs reader, and counter tools without any API key requirements."@,
    {
        self.get_info()
    }
}

impl Default for ToolService {
    fn default() -> (r: Self)
        ensures
            r.counter == 0,
    {
        ToolService::new()
    }
}

/// How one tool call left the service.
pub enum ToolOutcome {
    /// The call ran to completion.
    Done(Result<CallToolResult, RpcError>),
    /// The docs tool needs the transport to fetch this URL and hand what it
    /// observed to [`ToolService::docs_response`].
    Fetch(String),
}

impl ToolService {
    /// Calls a tool by name: validates the arguments against the tool's
    /// shape, runs the executor, and reports an invalid-params error for an
    /// unknown tool or rejected arguments.
    pub fn call_tool(&mut self, name: &str, arguments: &crate::json::JsonValue) -> (r: ToolOutcome)
        requires
            old(self).counter < u32::MAX,
        ensures
            final(self).counter == if name@ == "increment"@ {
                old(self).counter + 1
            } else {
                old(self).counter as int
            },
            name@ == "echo"@ ==> match crate::dto::spec_echo_args(arguments@) {
                Some(m) => r matches ToolOutcome::Done(Ok(res)) && res@ == seq![
                    ContentV::Text(m),
                ],
                None => r matches ToolOutcome::Done(Err(e)) && e@ == (RpcErrorV {
                    code: CODE_INVALID_PARAMS as int,
                    message: "Invalid echo arguments"@,
                }),
            },
            name@ == "reverse_text"@ ==> match crate::dto::spec_reverse_args(arguments@) {
                Some(t) => r matches ToolOutcome::Done(Ok(res)) && res@ == seq![
                    ContentV::Text(t.reverse()),
                ],
                None => r matches ToolOutcome::Done(Err(e)) && e@ == (RpcErrorV {
                    code: CODE_INVALID_PARAMS as int,
                    message: "Invalid reverse_text arguments"@,
                }),
            },
            name@ == "increment"@ ==> (r matches ToolOutcome::Done(Ok(res)) && res@ == seq![
                ContentV::Text(dec_str(old(self).counter + 1)),
            ]),
            name@ == "current_time"@ ==> (r matches ToolOutcome::Done(Ok(res)) && time_result(
                res@,
            )),
            name@ == "roll_dice"@ ==> match crate::dto::spec_dice_args(arguments@) {
                Some(k) => r matches ToolOutcome::Done(Ok(res)) && dice_roll_result(res@, k),
                None => r matches ToolOutcome::Done(Err(e)) && e@ == (RpcErrorV {
                    code: CODE_INVALID_PARAMS as int,
                    message: "Invalid roll_dice arguments"@,
                }),
            },
            name@ == "read_cedra_docs"@ ==> match crate::dto::spec_docs_args(arguments@) {
                Some(p) => ({
                    let t = crate::text::trim_spec(p);
                    if crate::text::has_prefix(t, "http://"@) || crate::text::has_prefix(
                        t,
                        "https://"@,
                    ) {
                        r matches ToolOutcome::Done(Err(e)) && e@ == (RpcErrorV {
                            code: CODE_INVALID_PARAMS as int,
                            message: "Path must be relative to docs.cedra.network"@,
                        })
                    } else {
                        r matches ToolOutcome::Fetch(url) && url@
                            == "https://docs.cedra.network/"@ + crate::text::skip_leading(t, '/')
                    }
                }),
                None => r matches ToolOutcome::Done(Err(e)) && e@ == (RpcErrorV {
                    code: CODE_INVALID_PARAMS as int,
                    message: "Invalid read_cedra_docs arguments"@,
                }),
            },
            name@ != "echo"@ && name@ != "reverse_text"@ && name@ != "increment"@ && name@
                != "current_time"@ && name@ != "roll_dice"@ && name@ != "read_cedra_docs"@
                ==> (r matches ToolOutcome::Done(Err(e)) && e@ == (RpcErrorV {
                code: CODE_INVALID_PARAMS as int,
                message: "Tool not found"@,
            })),
    {
        proof {
            reveal_strlit("echo");
            reveal_strlit("reverse_text");
            reveal_strlit("increment");
            reveal_strlit("current_time");
            reveal_strlit("roll_dice");
            reveal_strlit("read_cedra_docs");
            assert(("echo"@).len() == 4);
            assert(("reverse_text"@).len() == 12);
            assert(("increment"@).len() == 9);
            assert(("current_time"@).len() == 12);
            assert(("roll_dice"@).len() == 9);
            assert(("read_cedra_docs"@).len() == 15);
            assert(("reverse_text"@)[0] != ("current_time"@)[0]);
            assert(("increment"@)[0] != ("roll_dice"@)[0]);
        }
        if crate::text::str_eq(name, "echo") {
            match crate::dto::read_echo_args(arguments) {
                Some(args) => ToolOutcome::Done(self.echo(args)),
                None => ToolOutcome::Done(Err(RpcError::invalid_params("Invalid echo arguments"))),
            }
        } else if crate::text::str_eq(name, "reverse_text") {
            match crate::dto::read_reverse_args(arguments) {
                Some(args) => ToolOutcome::Done(self.reverse_text(args)),
                None => ToolOutcome::Done(
                    Err(RpcError::invalid_params("Invalid reverse_text arguments")),
                ),
            }
        } else if crate::text::str_eq(name, "increment") {
            ToolOutcome::Done(self.increment())
        } else if crate::text::str_eq(name, "current_time") {
            ToolOutcome::Done(self.current_time())
        } else if crate::text::str_eq(name, "roll_dice") {
            match crate::dto::read_dice_args(arguments) {
                Some(args) => ToolOutcome::Done(self.roll_dice(args)),
                None => ToolOutcome::Done(
                    Err(RpcError::invalid_params("Invalid roll_dice arguments")),
                ),
            }
        } else if crate::text::str_eq(name, "read_cedra_docs") {
            match crate::dto::read_docs_args(arguments) {
                Some(args) => match self.read_cedra_docs(&args) {
                    Ok(url) => ToolOutcome::Fetch(url),
                    Err(e) => ToolOutcome::Done(Err(e)),
                },
                None => ToolOutcome::Done(
                    Err(RpcError::invalid_params("Invalid read_cedra_docs arguments")),
                ),
            }
        } else {
            ToolOutcome::Done(Err(RpcError::invalid_params("Tool not found")))
        }
    }
}

proof fn lemma_counter_chain(cs: Seq<int>, n: int, i: int)
    requires
        cs.len() == n + 1,
        0 <= i < cs.len(),
        forall|j: int| 0 <= j < n ==> #[trigger] cs[j + 1] == cs[j] + 1,
    ensures
        cs[i] == cs[0] + i,
    decreases i,
{
    if i > 0 {
        lemma_counter_chain(cs, n, i - 1);
        assert(cs[(i - 1) + 1] == cs[i - 1] + 1);
    }
}

} // verus!
