//! A small HTTP/1.1 server's side of a connection: how a request is read from its lines, what
//! bytes answer it, and when the connection goes on.

use vstd::prelude::*;
use vstd::utf8::*;

use crate::json::Json;
use crate::percent::{decode_path, path_can_be_decoded};
use crate::text::{
    contains, parse_unsigned, same, same_ignoring_case, split_once, split_word, to_decimal,
    to_lower, trim, trim_end,
};

verus! {

/// How many bytes the request line and the header lines may have together.
pub const MAX_HEADER_BYTES: usize = 65536;

/// How many bytes a body may have.
pub const MAX_BODY_BYTES: usize = 67108864;

/// Names and values, in order.
pub open spec fn pairs(h: Seq<(String, String)>) -> Seq<(Seq<char>, Seq<char>)> {
    Seq::new(h.len(), |i: int| (h[i].0@, h[i].1@))
}

/// The value of the first header of a name, whatever the case of its letters.
pub open spec fn first_header(h: Seq<(Seq<char>, Seq<char>)>, name: Seq<char>) -> Option<Seq<char>>
    decreases h.len(),
{
    if h.len() == 0 {
        None
    } else if crate::text::lowered(h[0].0) == crate::text::lowered(name) {
        Some(h[0].1)
    } else {
        first_header(h.skip(1), name)
    }
}

fn find_header<'a>(headers: &'a Vec<(String, String)>, name: &str) -> (r: Option<&'a str>)
    ensures
        match r {
            Some(v) => first_header(pairs(headers@), name@) == Some(v@),
            None => first_header(pairs(headers@), name@) is None,
        },
{
    let ghost all = pairs(headers@);
    let mut i: usize = 0;
    assert(all.skip(0) =~= all);
    while i < headers.len()
        invariant
            i <= headers@.len(),
            all == pairs(headers@),
            first_header(all.skip(i as int), name@) == first_header(all, name@),
        decreases headers@.len() - i,
    {
        assert(all.skip(i as int)[0] == (headers@[i as int].0@, headers@[i as int].1@));
        assert(all.skip(i as int).skip(1) =~= all.skip(i + 1));
        if same_ignoring_case(headers[i].0.as_str(), name) {
            return Some(headers[i].1.as_str());
        }
        i = i + 1;
    }
    None
}

/// A request that has been read.
#[derive(Debug)]
pub struct Request {
    pub method: String,
    /// The path, its escapes resolved, without the query.
    pub path: String,
    pub query: String,
    pub headers: Vec<(String, String)>,
    pub body: Vec<u8>,
}

/// What a request says.
pub struct RequestView {
    pub method: Seq<char>,
    pub path: Seq<char>,
    pub query: Seq<char>,
    pub headers: Seq<(Seq<char>, Seq<char>)>,
    pub body: Seq<u8>,
}

impl View for Request {
    type V = RequestView;

    open spec fn view(&self) -> RequestView {
        RequestView {
            method: self.method@,
            path: self.path@,
            query: self.query@,
            headers: pairs(self.headers@),
            body: self.body@,
        }
    }
}

/// Whether a connection stays open behind a request with the given headers: unless its
/// `Connection` header says `close`.
pub open spec fn keeps_alive(h: Seq<(Seq<char>, Seq<char>)>) -> bool {
    match first_header(h, "connection"@) {
        Some(v) => !crate::text::occurs(crate::text::lowered(v), "close"@),
        None => true,
    }
}

impl Request {
    /// The value of the first header of a name, whatever the case of its letters.
    pub fn header(&self, name: &str) -> (r: Option<&str>)
        ensures
            match r {
                Some(v) => first_header(pairs(self.headers@), name@) == Some(v@),
                None => first_header(pairs(self.headers@), name@) is None,
            },
    {
        find_header(&self.headers, name)
    }

    /// Whether the connection stays open behind this request.
    pub fn wants_keepalive(&self) -> (r: bool)
        ensures
            r == keeps_alive(pairs(self.headers@)),
    {
        match self.header("connection") {
            Some(v) => {
                let conn = to_lower(v);
                !contains(conn.as_str(), "close")
            },
            None => true,
        }
    }
}

/// An answer.
#[derive(Debug)]
pub struct Response {
    pub status: u16,
    pub content_type: String,
    pub extra_headers: Vec<(String, String)>,
    pub body: Vec<u8>,
}

/// What an answer says.
pub struct ResponseView {
    pub status: u16,
    pub content_type: Seq<char>,
    pub extra_headers: Seq<(Seq<char>, Seq<char>)>,
    pub body: Seq<u8>,
}

impl View for Response {
    type V = ResponseView;

    open spec fn view(&self) -> ResponseView {
        ResponseView {
            status: self.status,
            content_type: self.content_type@,
            extra_headers: pairs(self.extra_headers@),
            body: self.body@,
        }
    }
}

/// The answer of a status, a content type and a body.
pub open spec fn plain_response(status: u16, content_type: Seq<char>, body: Seq<u8>) -> ResponseView {
    ResponseView { status, content_type, extra_headers: Seq::empty(), body }
}

/// The answer of a status and a text.
pub open spec fn text_response(status: u16, body: Seq<char>) -> ResponseView {
    plain_response(status, "text/plain; charset=utf-8"@, encode_utf8(body))
}

/// The answer to a command that went well: the value under `data`.
pub open spec fn ok_value(v: crate::json::JsonView) -> crate::json::JsonView {
    crate::json::object(
        seq![("ok"@, crate::json::JsonView::Bool(true)), ("data"@, v)],
    )
}

/// The answer to a command that failed: the words under `error`.
pub open spec fn err_value(e: Seq<char>) -> crate::json::JsonView {
    crate::json::object(
        seq![
            ("ok"@, crate::json::JsonView::Bool(false)),
            ("error"@, crate::json::JsonView::Text(e)),
        ],
    )
}

/// The answer that carries a JSON value.
pub open spec fn json_response(v: crate::json::JsonView) -> ResponseView {
    plain_response(200, "application/json"@, encode_utf8(crate::json::json_text(v)))
}

/// Whether bytes are the text of a value that is read back as it was.
pub open spec fn carries(body: Seq<u8>, v: crate::json::JsonView) -> bool {
    exists|text: Seq<char>|
        body == #[trigger] encode_utf8(text) && crate::json::reads_as(text, v)
}

fn bytes_of(s: &str) -> (r: Vec<u8>)
    ensures
        r@ == encode_utf8(s@),
{
    let mut out: Vec<u8> = Vec::new();
    append_bytes(&mut out, s.as_bytes());
    assert(out@ =~= encode_utf8(s@));
    out
}

fn append_bytes(out: &mut Vec<u8>, more: &[u8])
    ensures
        final(out)@ == old(out)@ + more@,
{
    let ghost had = out@;
    let mut i: usize = 0;
    assert(had + more@.take(0) =~= had);
    while i < more.len()
        invariant
            i <= more@.len(),
            out@ == had + more@.take(i as int),
        decreases more@.len() - i,
    {
        out.push(more[i]);
        assert(more@.take(i + 1) =~= more@.take(i as int).push(more@[i as int]));
        assert(had + more@.take(i + 1) =~= (had + more@.take(i as int)).push(more@[i as int]));
        i = i + 1;
    }
    assert(more@.take(more@.len() as int) =~= more@);
}

impl Response {
    /// The answer of a status, a content type and a body.
    pub fn bytes(status: u16, content_type: &str, body: Vec<u8>) -> (r: Response)
        ensures
            r@ == plain_response(status, content_type@, body@),
    {
        let r = Response {
            status,
            content_type: content_type.to_owned(),
            extra_headers: Vec::new(),
            body,
        };
        assert(pairs(r.extra_headers@) =~= Seq::empty());
        r
    }

    /// The answer of a status and a text.
    pub fn text(status: u16, body: &str) -> (r: Response)
        ensures
            r@ == text_response(status, body@),
    {
        Response::bytes(status, "text/plain; charset=utf-8", bytes_of(body))
    }

    /// The answer that carries a text of JSON.
    pub fn json(text: &str) -> (r: Response)
        ensures
            r@ == plain_response(200, "application/json"@, encode_utf8(text@)),
    {
        Response::bytes(200, "application/json", bytes_of(text))
    }

    /// The answer to a command that went well.
    pub fn json_ok(v: Json) -> (r: Response)
        ensures
            r@ == json_response(ok_value(v@)),
            crate::json::plain(v@, (crate::json::reading_depth() - 1) as nat) ==> carries(
                r@.body,
                ok_value(v@),
            ),
    {
        let entries = vec![("ok".to_owned(), Json::Bool(true)), ("data".to_owned(), v)];
        proof {
            assert(crate::json::entry_views(entries@) =~= seq![
                ("ok"@, crate::json::JsonView::Bool(true)),
                ("data"@, v@),
            ]);
            if crate::json::plain(v@, (crate::json::reading_depth() - 1) as nat) {
                crate::json::lemma_plain_object(
                    seq![("ok"@, crate::json::JsonView::Bool(true)), ("data"@, v@)],
                    (crate::json::reading_depth() - 1) as nat,
                );
            }
        }
        let text = Json::Object(entries).to_text();
        Response::json(text.as_str())
    }

    /// The answer to a command that failed.
    pub fn json_err(e: &str) -> (r: Response)
        ensures
            r@ == json_response(err_value(e@)),
            carries(r@.body, err_value(e@)),
    {
        let entries = vec![
            ("ok".to_owned(), Json::Bool(false)),
            ("error".to_owned(), Json::Text(e.to_owned())),
        ];
        proof {
            assert(crate::json::entry_views(entries@) =~= seq![
                ("ok"@, crate::json::JsonView::Bool(false)),
                ("error"@, crate::json::JsonView::Text(e@)),
            ]);
            crate::json::lemma_plain_object(
                seq![
                    ("ok"@, crate::json::JsonView::Bool(false)),
                    ("error"@, crate::json::JsonView::Text(e@)),
                ],
                (crate::json::reading_depth() - 1) as nat,
            );
        }
        let text = Json::Object(entries).to_text();
        Response::json(text.as_str())
    }

    /// Adds a header behind those that are there.
    pub fn set_header(&mut self, name: &str, value: &str)
        ensures
            final(self)@ == (ResponseView {
                extra_headers: old(self)@.extra_headers.push((name@, value@)),
                ..old(self)@
            }),
    {
        self.extra_headers.push((name.to_owned(), value.to_owned()));
        assert(pairs(self.extra_headers@) =~= pairs(old(self).extra_headers@).push(
            (name@, value@),
        ));
    }
}

/// What a request is met with: an answer, or its connection handed over to the stream of events.
pub enum Reply {
    Respond(Response),
    TakeOver,
}

/// What a reply says.
pub enum ReplyView {
    Respond(ResponseView),
    TakeOver,
}

impl View for Reply {
    type V = ReplyView;

    open spec fn view(&self) -> ReplyView {
        match *self {
            Reply::Respond(r) => ReplyView::Respond(r@),
            Reply::TakeOver => ReplyView::TakeOver,
        }
    }
}

impl Reply {
    /// An answer.
    pub fn respond(r: Response) -> (reply: Reply)
        ensures
            reply == Reply::Respond(r),
    {
        Reply::Respond(r)
    }

    /// The connection handed over.
    pub fn take_over() -> (reply: Reply)
        ensures
            reply == Reply::TakeOver,
    {
        Reply::TakeOver
    }
}

// Reading.

/// The start of a request, and the headers that have been read of it.
#[derive(Debug)]
pub struct Head {
    pub method: String,
    pub path: String,
    pub query: String,
    pub headers: Vec<(String, String)>,
    /// How many bytes have been counted.
    pub total: usize,
}

/// What a `Head` says.
pub struct HeadView {
    pub method: Seq<char>,
    pub path: Seq<char>,
    pub query: Seq<char>,
    pub headers: Seq<(Seq<char>, Seq<char>)>,
    pub total: nat,
}

impl View for Head {
    type V = HeadView;

    open spec fn view(&self) -> HeadView {
        HeadView {
            method: self.method@,
            path: self.path@,
            query: self.query@,
            headers: pairs(self.headers@),
            total: self.total as nat,
        }
    }
}

/// What came of reading the first line of a request.
#[derive(Debug)]
pub enum FirstLine {
    Eof,
    TimedOut,
    Failed,
    Read(String),
}

/// What the first line of a request leads to.
#[derive(Debug)]
pub enum Opening {
    /// No request follows; the connection is closed.
    Closed,
    /// The line could not be read.
    Failed,
    /// An escape in the path cuts a character in two, and no request is made of the line.
    SplitsCharacter,
    Head(Head),
}

/// The second word of a request line, or the root where there is none.
pub open spec fn target_of(line: Seq<char>) -> Seq<char> {
    let t = crate::text::first_word(crate::text::after_word(line));
    if t.len() == 0 {
        "/"@
    } else {
        t
    }
}

/// The path of a target, its escapes unresolved.
pub open spec fn raw_path(target: Seq<char>) -> Seq<char> {
    match crate::text::split_at_first(target, '?') {
        Some((p, q)) => p,
        None => target,
    }
}

/// The query of a target.
pub open spec fn raw_query(target: Seq<char>) -> Seq<char> {
    match crate::text::split_at_first(target, '?') {
        Some((p, q)) => q,
        None => Seq::empty(),
    }
}

/// The head that a request line, without the white space at its end, opens.
pub open spec fn head_of(line: Seq<char>) -> HeadView {
    HeadView {
        method: crate::text::first_word(line),
        path: crate::percent::decoded(raw_path(target_of(line))),
        query: raw_query(target_of(line)),
        headers: Seq::empty(),
        total: encode_utf8(line).len(),
    }
}

fn byte_len(s: &str) -> (r: usize)
    ensures
        r == encode_utf8(s@).len(),
{
    s.as_bytes().len()
}

/// Opens a request with its first line.
pub fn open_request(first: FirstLine) -> (r: Opening)
    ensures
        match first {
            FirstLine::Eof => r is Closed,
            FirstLine::TimedOut => r is Closed,
            FirstLine::Failed => r is Failed,
            FirstLine::Read(raw) => {
                let line = crate::text::trimmed_end(raw@);
                if line.len() == 0 {
                    r is Closed
                } else if !crate::percent::escapes_fit(encode_utf8(raw_path(target_of(line)))) {
                    r is SplitsCharacter
                } else {
                    r matches Opening::Head(h) && h@ == head_of(line)
                }
            },
        },
        r matches Opening::Head(h) ==> first matches FirstLine::Read(raw) && {
            let asked = raw_path(target_of(crate::text::trimmed_end(raw@)));
            let bytes = crate::percent::percent_decoded(encode_utf8(asked));
            &&& valid_utf8(bytes) ==> h.path@ == decode_utf8(bytes)
            &&& !asked.contains('%') ==> h.path@ == asked
        },
{
    let raw = match first {
        FirstLine::Read(raw) => raw,
        FirstLine::Failed => {
            return Opening::Failed;
        },
        _ => {
            return Opening::Closed;
        },
    };
    let line = trim_end(raw.as_str());
    if line.as_str().is_empty() {
        return Opening::Closed;
    }
    let (method, rest) = split_word(line.as_str());
    let (word, _more) = split_word(rest.as_str());
    let target = if word.as_str().is_empty() {
        "/".to_owned()
    } else {
        word
    };
    assert(target@ == target_of(line@));
    let (raw_path, query) = match split_once(target.as_str(), '?') {
        Some((p, q)) => (p, q),
        None => (target, String::new()),
    };
    if !path_can_be_decoded(raw_path.as_str()) {
        return Opening::SplitsCharacter;
    }
    let path = decode_path(raw_path.as_str());
    let h = Head { method, path, query, headers: Vec::new(), total: byte_len(line.as_str()) };
    assert(pairs(h.headers@) =~= Seq::empty());
    Opening::Head(h)
}

/// What a line behind the first leads to.
#[derive(Debug)]
pub enum HeaderStep {
    /// More lines are to be read.
    More(Head),
    /// The head is complete.
    Complete(Head),
    /// The lines are too long together.
    TooLarge,
}

/// The headers with what a line, without the white space at its end, adds to them: a line without
/// a colon adds nothing.
pub open spec fn with_line(
    headers: Seq<(Seq<char>, Seq<char>)>,
    line: Seq<char>,
) -> Seq<(Seq<char>, Seq<char>)> {
    match crate::text::split_at_first(line, ':') {
        Some((k, v)) => headers.push((crate::text::trimmed(k), crate::text::trimmed(v))),
        None => headers,
    }
}

/// What a line behind the first leads to, as contracts speak of it.
pub enum HeaderStepView {
    More(HeadView),
    Complete(HeadView),
    TooLarge,
}

impl View for HeaderStep {
    type V = HeaderStepView;

    open spec fn view(&self) -> HeaderStepView {
        match *self {
            HeaderStep::More(h) => HeaderStepView::More(h@),
            HeaderStep::Complete(h) => HeaderStepView::Complete(h@),
            HeaderStep::TooLarge => HeaderStepView::TooLarge,
        }
    }
}

/// What a line behind the first leads to. Its bytes are counted, those of its line end too.
pub open spec fn after_line(head: HeadView, raw: Seq<char>) -> HeaderStepView {
    let line = crate::text::trimmed_end(raw);
    let total = head.total + encode_utf8(raw).len();
    if total > MAX_HEADER_BYTES {
        HeaderStepView::TooLarge
    } else if line.len() == 0 {
        HeaderStepView::Complete(HeadView { total, ..head })
    } else {
        HeaderStepView::More(HeadView { total, headers: with_line(head.headers, line), ..head })
    }
}

/// Takes in a line behind the first. An empty line completes the head, as the end of the input
/// does.
pub fn header_line(head: Head, raw: &str) -> (r: HeaderStep)
    ensures
        r@ == after_line(head@, raw@),
{
    let total = head.total.saturating_add(byte_len(raw));
    if total > MAX_HEADER_BYTES {
        return HeaderStep::TooLarge;
    }
    let mut head = head;
    head.total = total;
    let line = trim_end(raw);
    if line.as_str().is_empty() {
        return HeaderStep::Complete(head);
    }
    match split_once(line.as_str(), ':') {
        Some((k, v)) => {
            let ghost had = head.headers@;
            let key = trim(k.as_str());
            let value = trim(v.as_str());
            head.headers.push((key, value));
            assert(pairs(head.headers@) =~= pairs(had).push((key@, value@)));
        },
        None => {},
    }
    HeaderStep::More(head)
}

/// The length of the body that headers announce: none, where the first `Content-Length` is not a
/// number.
pub open spec fn announced_length(h: Seq<(Seq<char>, Seq<char>)>) -> nat {
    match first_header(h, "content-length"@) {
        Some(v) => match crate::text::unsigned(v) {
            Some(n) => if n <= usize::MAX {
                n
            } else {
                0
            },
            None => 0,
        },
        None => 0,
    }
}

/// How many bytes of body are to be read behind a head, or `None` where they are too many.
pub fn body_length(head: &Head) -> (r: Option<usize>)
    ensures
        match r {
            Some(n) => n == announced_length(head@.headers) && n <= MAX_BODY_BYTES,
            None => announced_length(head@.headers) > MAX_BODY_BYTES,
        },
{
    let len = match find_header(&head.headers, "content-length") {
        Some(v) => match parse_unsigned(v, usize::MAX) {
            Some(n) => n,
            None => 0,
        },
        None => 0,
    };
    if len > MAX_BODY_BYTES {
        None
    } else {
        Some(len)
    }
}

/// The request of a head and a body.
pub fn complete_request(head: Head, body: Vec<u8>) -> (r: Request)
    ensures
        r@ == (RequestView {
            method: head@.method,
            path: head@.path,
            query: head@.query,
            headers: head@.headers,
            body: body@,
        }),
{
    Request {
        method: head.method,
        path: head.path,
        query: head.query,
        headers: head.headers,
        body,
    }
}

// Answering.

/// The words that go with a status.
pub open spec fn reason_text(status: u16) -> Seq<char> {
    if status == 204 {
        "No Content"@
    } else if status == 304 {
        "Not Modified"@
    } else if status == 400 {
        "Bad Request"@
    } else if status == 404 {
        "Not Found"@
    } else if status == 405 {
        "Method Not Allowed"@
    } else if status == 500 {
        "Internal Server Error"@
    } else {
        "OK"@
    }
}

/// The words that go with a status.
pub fn reason(status: u16) -> (r: &'static str)
    ensures
        r@ == reason_text(status),
{
    match status {
        200 => "OK",
        204 => "No Content",
        304 => "Not Modified",
        400 => "Bad Request",
        404 => "Not Found",
        405 => "Method Not Allowed",
        500 => "Internal Server Error",
        _ => "OK",
    }
}

/// The lines of headers.
pub open spec fn header_lines(h: Seq<(Seq<char>, Seq<char>)>) -> Seq<char>
    decreases h.len(),
{
    if h.len() == 0 {
        Seq::empty()
    } else {
        header_lines(h.drop_last()) + h.last().0 + ": "@ + h.last().1 + "\r\n"@
    }
}

/// What stands behind `Connection:`.
pub open spec fn connection_word(keep: bool) -> Seq<char> {
    if keep {
        "keep-alive"@
    } else {
        "close"@
    }
}

/// The lines before the body of an answer.
pub open spec fn response_head(r: ResponseView, keep: bool) -> Seq<char> {
    "HTTP/1.1 "@ + crate::text::decimal(r.status as nat) + " "@ + reason_text(r.status)
        + "\r\nContent-Type: "@ + r.content_type + "\r\nContent-Length: "@ + crate::text::decimal(
        r.body.len(),
    ) + "\r\nConnection: "@ + connection_word(keep) + "\r\n"@ + header_lines(r.extra_headers)
        + "\r\n"@
}

/// The bytes of an answer; those to a `HEAD` request end before the body.
pub open spec fn response_bytes(r: ResponseView, keep: bool, head_only: bool) -> Seq<u8> {
    encode_utf8(response_head(r, keep)) + if head_only {
        Seq::empty()
    } else {
        r.body
    }
}

/// Writes an answer out.
pub fn write_response(resp: &Response, keep: bool, head_only: bool) -> (r: Vec<u8>)
    ensures
        r@ == response_bytes(resp@, keep, head_only),
{
    let mut head = "HTTP/1.1 ".to_owned();
    head.append(to_decimal(resp.status as u128).as_str());
    head.append(" ");
    head.append(reason(resp.status));
    head.append("\r\nContent-Type: ");
    head.append(resp.content_type.as_str());
    head.append("\r\nContent-Length: ");
    head.append(to_decimal(resp.body.len() as u128).as_str());
    head.append("\r\nConnection: ");
    if keep {
        head.append("keep-alive");
    } else {
        head.append("close");
    }
    head.append("\r\n");
    let ghost start = head@;
    let ghost all = pairs(resp.extra_headers@);
    let mut i: usize = 0;
    assert(all.take(0) =~= Seq::empty());
    assert(start + header_lines(all.take(0)) =~= start);
    while i < resp.extra_headers.len()
        invariant
            i <= resp.extra_headers@.len(),
            all == pairs(resp.extra_headers@),
            head@ == start + header_lines(all.take(i as int)),
        decreases resp.extra_headers@.len() - i,
    {
        let ghost had = head@;
        head.append(resp.extra_headers[i].0.as_str());
        head.append(": ");
        head.append(resp.extra_headers[i].1.as_str());
        head.append("\r\n");
        proof {
            let next = all.take(i + 1);
            assert(next.drop_last() =~= all.take(i as int));
            assert(next.last() == all[i as int]);
            assert(head@ =~= start + header_lines(next));
        }
        i = i + 1;
    }
    assert(all.take(i as int) =~= all);
    head.append("\r\n");
    assert(head@ =~= response_head(resp@, keep));
    let mut out = bytes_of(head.as_str());
    if !head_only {
        append_bytes(&mut out, resp.body.as_slice());
    }
    assert(out@ =~= response_bytes(resp@, keep, head_only));
    out
}

// The connection.

/// What is done with a connection once a request is met with a reply.
pub enum Turn {
    /// The bytes are written; where that succeeds and `keep` is set, the next request is read.
    Write { bytes: Vec<u8>, keep: bool },
    /// The connection is handed over.
    TakeOver,
}

/// What is done with a connection, as contracts speak of it.
pub enum TurnView {
    Write { bytes: Seq<u8>, keep: bool },
    TakeOver,
}

impl View for Turn {
    type V = TurnView;

    open spec fn view(&self) -> TurnView {
        match *self {
            Turn::Write { bytes, keep } => TurnView::Write { bytes: bytes@, keep },
            Turn::TakeOver => TurnView::TakeOver,
        }
    }
}

/// What is done with a connection: an answer is written, without its body to a `HEAD` request, and
/// the connection is kept unless the request asks to close it.
pub open spec fn turn_of(req: RequestView, reply: ReplyView) -> TurnView {
    match reply {
        ReplyView::Respond(resp) => TurnView::Write {
            bytes: response_bytes(resp, keeps_alive(req.headers), req.method == "HEAD"@),
            keep: keeps_alive(req.headers),
        },
        ReplyView::TakeOver => TurnView::TakeOver,
    }
}

/// What came of reading the next request of a connection.
#[derive(Debug)]
pub enum Received {
    Request(Request),
    /// The other side is done.
    Ended,
    /// No request could be read.
    Failed,
}

/// The request that came, as contracts speak of it.
pub open spec fn request_of(r: Received) -> Option<RequestView> {
    match r {
        Received::Request(q) => Some(q@),
        _ => None,
    }
}

/// The request that is answered next, or `None` where the connection is closed.
pub fn to_answer(r: Received) -> (q: Option<Request>)
    ensures
        match q {
            Some(q) => request_of(r) == Some(q@),
            None => request_of(r) is None,
        },
{
    match r {
        Received::Request(q) => Some(q),
        Received::Ended => None,
        Received::Failed => None,
    }
}

/// Decides what is done with a connection.
pub fn answer(req: &Request, reply: &Reply) -> (r: Turn)
    ensures
        r@ == turn_of(req@, reply@),
{
    match reply {
        Reply::Respond(resp) => {
            let keep = req.wants_keepalive();
            let bytes = write_response(resp, keep, same(req.method.as_str(), "HEAD"));
            Turn::Write { bytes, keep }
        },
        Reply::TakeOver => Turn::TakeOver,
    }
}

/// Whether the next request of a connection is read: where the answer was written and the
/// connection is kept.
pub fn goes_on(written: bool, keep: bool) -> (r: bool)
    ensures
        r == (written && keep),
{
    written && keep
}

// The requests of a connection.

/// A round of a connection: the request that would be read, the reply that it would be met with,
/// and whether the answer could be written.
pub struct Round {
    pub read: Option<RequestView>,
    pub reply: ReplyView,
    pub written: bool,
}

/// What is done in the course of a connection.
pub enum Act {
    /// A request is met with a reply.
    Route(RequestView),
    /// The bytes are written.
    Write(Seq<u8>),
    /// The connection is handed over.
    HandOver,
}

/// What is done in a round.
pub open spec fn acts_of(r: Round) -> Seq<Act> {
    match r.read {
        Some(q) => match turn_of(q, r.reply) {
            TurnView::Write { bytes, keep } => seq![Act::Route(q), Act::Write(bytes)],
            TurnView::TakeOver => seq![Act::Route(q), Act::HandOver],
        },
        None => Seq::empty(),
    }
}

/// Whether another round follows.
pub open spec fn runs_on(r: Round) -> bool {
    match r.read {
        Some(q) => match turn_of(q, r.reply) {
            TurnView::Write { bytes, keep } => r.written && keep,
            TurnView::TakeOver => false,
        },
        None => false,
    }
}

/// What is done in the course of a connection, round by round until one that is not followed by
/// another.
pub open spec fn connection(rounds: Seq<Round>) -> Seq<Act>
    decreases rounds.len(),
{
    if rounds.len() == 0 {
        Seq::empty()
    } else if runs_on(rounds[0]) {
        acts_of(rounds[0]) + connection(rounds.skip(1))
    } else {
        acts_of(rounds[0])
    }
}

/// How many rounds there are in the course of a connection.
pub open spec fn rounds_begun(rounds: Seq<Round>) -> nat
    decreases rounds.len(),
{
    if rounds.len() == 0 {
        0
    } else if runs_on(rounds[0]) {
        1 + rounds_begun(rounds.skip(1))
    } else {
        1
    }
}

/// What is done in some rounds, one behind the other.
pub open spec fn all_acts(rounds: Seq<Round>) -> Seq<Act>
    decreases rounds.len(),
{
    if rounds.len() == 0 {
        Seq::empty()
    } else {
        acts_of(rounds[0]) + all_acts(rounds.skip(1))
    }
}

// The lines of a head.

/// What lines behind the first lead to, taken in one after the other until the head is complete or
/// refused.
pub open spec fn after_lines(head: HeadView, lines: Seq<Seq<char>>) -> HeaderStepView
    decreases lines.len(),
{
    if lines.len() == 0 {
        HeaderStepView::More(head)
    } else {
        match after_line(head, lines[0]) {
            HeaderStepView::More(h) => after_lines(h, lines.skip(1)),
            end => end,
        }
    }
}

/// How many lines stand before the first that is empty but for white space; all of them, where
/// there is none.
pub open spec fn lines_before_empty(lines: Seq<Seq<char>>) -> nat
    decreases lines.len(),
{
    if lines.len() == 0 || crate::text::trimmed_end(lines[0]).len() == 0 {
        0
    } else {
        1 + lines_before_empty(lines.skip(1))
    }
}

/// How many lines belong to a head: those before the first that is empty, and that one.
pub open spec fn lines_of_head(lines: Seq<Seq<char>>) -> nat {
    if lines_before_empty(lines) < lines.len() {
        lines_before_empty(lines) + 1
    } else {
        lines.len()
    }
}

/// How many bytes lines have together, with their line ends.
pub open spec fn bytes_of_lines(lines: Seq<Seq<char>>) -> nat
    decreases lines.len(),
{
    if lines.len() == 0 {
        0
    } else {
        encode_utf8(lines[0]).len() + bytes_of_lines(lines.skip(1))
    }
}

/// The headers that lines hold, in order: one for each line with a colon.
pub open spec fn headers_of_lines(lines: Seq<Seq<char>>) -> Seq<(Seq<char>, Seq<char>)>
    decreases lines.len(),
{
    if lines.len() == 0 {
        Seq::empty()
    } else {
        with_line(Seq::empty(), crate::text::trimmed_end(lines[0])) + headers_of_lines(
            lines.skip(1),
        )
    }
}

// Laws.

proof fn lemma_lines_before_empty(lines: Seq<Seq<char>>)
    ensures
        lines_before_empty(lines) <= lines.len(),
    decreases lines.len(),
{
    if lines.len() > 0 {
        lemma_lines_before_empty(lines.skip(1));
    }
}

/// A head is refused exactly where what was counted before and the lines that belong to it, with
/// their line ends, are too long together. Else it is complete once there is an empty line, and
/// its headers are those that were there and those of its lines, in order.
pub proof fn law_lines_of_a_head(head: HeadView, lines: Seq<Seq<char>>)
    requires
        lines.len() > 0,
    ensures
        ({
            let k = lines_before_empty(lines) as int;
            let total = head.total + bytes_of_lines(lines.take(lines_of_head(lines) as int));
            let read = HeadView {
                total,
                headers: head.headers + headers_of_lines(lines.take(k)),
                ..head
            };
            after_lines(head, lines) == if total > MAX_HEADER_BYTES {
                HeaderStepView::TooLarge
            } else if k < lines.len() {
                HeaderStepView::Complete(read)
            } else {
                HeaderStepView::More(read)
            }
        }),
    decreases lines.len(),
{
    let first = lines[0];
    let rest = lines.skip(1);
    let n = lines_of_head(lines) as int;
    let k = lines_before_empty(lines) as int;
    lemma_lines_before_empty(lines);
    lemma_lines_before_empty(rest);
    let mine = lines.take(n);
    assert(mine[0] == first);
    assert(mine.skip(1) =~= rest.take(n - 1));
    assert(bytes_of_lines(Seq::empty()) == 0);
    assert(headers_of_lines(Seq::empty()) =~= Seq::empty());
    let line = crate::text::trimmed_end(first);
    if line.len() == 0 {
        assert(rest.take(0) =~= Seq::empty());
        assert(lines.take(0) =~= Seq::empty());
        assert(head.headers + headers_of_lines(lines.take(0)) =~= head.headers);
    } else {
        assert(lines.take(k)[0] == first);
        assert(lines.take(k).skip(1) =~= rest.take(k - 1));
        let next = HeadView {
            total: head.total + encode_utf8(first).len(),
            headers: with_line(head.headers, line),
            ..head
        };
        assert(with_line(head.headers, line) =~= head.headers + with_line(Seq::empty(), line));
        assert(next.headers + headers_of_lines(rest.take(k - 1)) =~= head.headers
            + headers_of_lines(lines.take(k)));
        if rest.len() > 0 {
            law_lines_of_a_head(next, rest);
        } else {
            assert(rest =~= Seq::empty());
            assert(rest.take(0) =~= Seq::empty());
        }
    }
}

/// A request is refused for its head exactly where its request line, without the white space at its
/// end, and the lines of its head, with their line ends, are too long together. Else the head says
/// what the request line says, and its headers are those of its lines, in order.
pub proof fn law_head_of_a_request(line: Seq<char>, lines: Seq<Seq<char>>)
    requires
        lines_before_empty(lines) < lines.len(),
    ensures
        ({
            let total = encode_utf8(line).len() + bytes_of_lines(
                lines.take(lines_of_head(lines) as int),
            );
            after_lines(head_of(line), lines) == if total > MAX_HEADER_BYTES {
                HeaderStepView::TooLarge
            } else {
                HeaderStepView::Complete(
                    HeadView {
                        total,
                        headers: headers_of_lines(
                            lines.take(lines_before_empty(lines) as int),
                        ),
                        ..head_of(line)
                    },
                )
            }
        }),
{
    law_lines_of_a_head(head_of(line), lines);
    let listed = headers_of_lines(lines.take(lines_before_empty(lines) as int));
    assert(Seq::<(Seq<char>, Seq<char>)>::empty() + listed =~= listed);
}

/// The requests of a connection are answered in order, each once, and none is read behind one that
/// asks to close the connection, one that could not be read, an answer that could not be written,
/// or a hand-over: the rounds are begun in turn, every one that is followed by another was read,
/// met with an answer, written and kept, and the last is not.
pub proof fn law_requests_are_answered_in_order(rounds: Seq<Round>)
    ensures
        rounds_begun(rounds) <= rounds.len(),
        connection(rounds) == all_acts(rounds.take(rounds_begun(rounds) as int)),
        forall|i: int|
            0 <= i < rounds_begun(rounds) - 1 ==> (#[trigger] rounds[i]).read is Some
                && rounds[i].reply is Respond && rounds[i].written && keeps_alive(
                rounds[i].read->0.headers,
            ),
        rounds_begun(rounds) < rounds.len() ==> rounds_begun(rounds) > 0 && {
            let end = rounds[rounds_begun(rounds) - 1];
            end.read is None || end.reply is TakeOver || !end.written || !keeps_alive(
                end.read->0.headers,
            )
        },
    decreases rounds.len(),
{
    if rounds.len() > 0 {
        let rest = rounds.skip(1);
        let n = rounds_begun(rounds) as int;
        if runs_on(rounds[0]) {
            law_requests_are_answered_in_order(rest);
            assert(rounds.take(n)[0] == rounds[0]);
            assert(rounds.take(n).skip(1) =~= rest.take(n - 1));
            assert forall|i: int| 0 <= i < n - 1 implies (#[trigger] rounds[i]).read is Some
                && rounds[i].reply is Respond && rounds[i].written && keeps_alive(
                rounds[i].read->0.headers,
            ) by {
                if i > 0 {
                    assert(rounds[i] == rest[i - 1]);
                }
            }
            if n < rounds.len() {
                assert(rounds[n - 1] == rest[n - 2]);
            }
        } else {
            assert(rounds.take(1)[0] == rounds[0]);
            assert(rounds.take(1).skip(1) =~= Seq::empty());
            assert(all_acts(Seq::empty()) =~= Seq::empty());
            assert(all_acts(rounds.take(1)) =~= acts_of(rounds[0]));
        }
    } else {
        assert(rounds.take(0) =~= Seq::empty());
    }
}

/// A request that is met with an answer is routed, and then the answer is written, without its body
/// to a `HEAD` request; one whose connection is handed over is routed, and nothing is written.
pub proof fn law_acts_of_a_request(q: RequestView, resp: ResponseView, written: bool)
    ensures
        acts_of(Round { read: Some(q), reply: ReplyView::Respond(resp), written }) == seq![
            Act::Route(q),
            Act::Write(response_bytes(resp, keeps_alive(q.headers), q.method == "HEAD"@)),
        ],
        acts_of(Round { read: Some(q), reply: ReplyView::TakeOver, written }) == seq![
            Act::Route(q),
            Act::HandOver,
        ],
{
}

/// Nothing is done behind a hand-over.
pub proof fn law_hand_over_is_the_end(rounds: Seq<Round>, k: int)
    requires
        0 <= k < connection(rounds).len(),
        connection(rounds)[k] is HandOver,
    ensures
        k == connection(rounds).len() - 1,
    decreases rounds.len(),
{
    let first = acts_of(rounds[0]);
    if runs_on(rounds[0]) {
        assert(first.len() == 2 && first[0] is Route && first[1] is Write);
        assert(connection(rounds) == first + connection(rounds.skip(1)));
        assert(k >= 2);
        law_hand_over_is_the_end(rounds.skip(1), k - 2);
    }
}

/// The bytes that answer a `HEAD` request are those that answer the same request with another
/// method, up to the body.
pub proof fn law_head_is_the_start(r: ResponseView, keep: bool)
    ensures
        response_bytes(r, keep, false) == response_bytes(r, keep, true) + r.body,
{
    assert(response_bytes(r, keep, true) =~= encode_utf8(response_head(r, keep)));
}

/// A page can tell an answer that went well from one that failed, and finds what it carries.
pub proof fn law_answers_tell_success(v: crate::json::JsonView, e: Seq<char>)
    ensures
        ok_value(v).bool_member("ok"@) == Some(true),
        ok_value(v).member("data"@) == Some(v),
        err_value(e).bool_member("ok"@) == Some(false),
        err_value(e).text_member("error"@) == Some(e),
{
    reveal_strlit("ok");
    reveal_strlit("data");
    reveal_strlit("error");
    assert("ok"@.len() == 2 && "data"@.len() == 4 && "error"@.len() == 5);
    let good = seq![("ok"@, crate::json::JsonView::Bool(true)), ("data"@, v)];
    let bad = seq![
        ("ok"@, crate::json::JsonView::Bool(false)),
        ("error"@, crate::json::JsonView::Text(e)),
    ];
    crate::json::lemma_entries_map_at(good, 0);
    crate::json::lemma_entries_map_at(good, 1);
    crate::json::lemma_entries_map_at(bad, 0);
    crate::json::lemma_entries_map_at(bad, 1);
}

/// The case of the letters in the name of a header makes no difference.
pub proof fn law_header_names_have_no_case(
    headers: Seq<(Seq<char>, Seq<char>)>,
    a: Seq<char>,
    b: Seq<char>,
)
    requires
        crate::text::lowered(a) == crate::text::lowered(b),
    ensures
        first_header(headers, a) == first_header(headers, b),
    decreases headers.len(),
{
    if headers.len() > 0 {
        law_header_names_have_no_case(headers.skip(1), a, b);
    }
}

/// The length of a body that a header announces in decimal digits is the length that is read.
pub proof fn law_announced_length_is_read(
    headers: Seq<(Seq<char>, Seq<char>)>,
    name: Seq<char>,
    n: nat,
)
    requires
        crate::text::lowered(name) == crate::text::lowered("content-length"@),
        first_header(headers, name) == Some(crate::text::decimal(n)),
        n <= usize::MAX,
    ensures
        announced_length(headers) == n,
{
    law_header_names_have_no_case(headers, name, "content-length"@);
    crate::text::law_decimal_is_read_back(n);
}

/// A header that is set last is the last line before the empty line.
pub proof fn law_set_header_is_last(
    headers: Seq<(Seq<char>, Seq<char>)>,
    name: Seq<char>,
    value: Seq<char>,
)
    ensures
        header_lines(headers.push((name, value))) == header_lines(headers) + name + ": "@ + value
            + "\r\n"@,
{
    assert(headers.push((name, value)).drop_last() =~= headers);
}

// Laws of single parts, in terms of what was sent.

/// The lines of a head may have 64 KiB, and a body 64 MiB.
pub proof fn law_limits()
    ensures
        MAX_HEADER_BYTES == 64 * 1024,
        MAX_BODY_BYTES == 64 * 1024 * 1024,
{
}

/// The header of a name is the first whose name is the same but for the case of its letters, and
/// there is none where no header has such a name.
pub proof fn law_first_header(
    before: Seq<(Seq<char>, Seq<char>)>,
    key: Seq<char>,
    value: Seq<char>,
    rest: Seq<(Seq<char>, Seq<char>)>,
    name: Seq<char>,
)
    requires
        forall|i: int|
            0 <= i < before.len() ==> crate::text::lowered((#[trigger] before[i]).0)
                != crate::text::lowered(name),
        crate::text::lowered(key) == crate::text::lowered(name),
    ensures
        first_header(before + seq![(key, value)] + rest, name) == Some(value),
        first_header(before, name) is None,
    decreases before.len(),
{
    let all = before + seq![(key, value)] + rest;
    if before.len() > 0 {
        let others = before.skip(1);
        assert(all[0] == before[0]);
        assert(crate::text::lowered(before[0].0) != crate::text::lowered(name));
        assert(all.skip(1) =~= others + seq![(key, value)] + rest);
        assert forall|i: int| 0 <= i < others.len() implies crate::text::lowered(
            (#[trigger] others[i]).0,
        ) != crate::text::lowered(name) by {
            assert(others[i] == before[i + 1]);
        }
        law_first_header(others, key, value, rest, name);
    } else {
        assert(all[0] == (key, value));
    }
}

/// A connection stays open unless its `Connection` header holds the word `close`, in whatever case.
pub proof fn law_kept_connections(
    h: Seq<(Seq<char>, Seq<char>)>,
    v: Seq<char>,
    a: Seq<char>,
    b: Seq<char>,
)
    ensures
        first_header(h, "connection"@) is None ==> keeps_alive(h),
        first_header(h, "connection"@) == Some(v) && crate::text::lowered(v) == a + "close"@ + b
            ==> !keeps_alive(h),
        !keeps_alive(h)
            ==> first_header(h, "connection"@) is Some && exists|x: Seq<char>, y: Seq<char>|
            crate::text::lowered(first_header(h, "connection"@)->0) == #[trigger] (
                x + "close"@ + y),
{
    crate::text::law_occurs(crate::text::lowered(v), a, "close"@, b);
    if !keeps_alive(h) {
        crate::text::law_occurs(
            crate::text::lowered(first_header(h, "connection"@)->0),
            a,
            "close"@,
            b,
        );
    }
}

/// An answer has the status, the content type and the body that it was made of, and no other
/// headers; a text is plain text, and a JSON value is sent as its compact text.
pub proof fn law_responses(
    status: u16,
    content_type: Seq<char>,
    body: Seq<u8>,
    text: Seq<char>,
    v: crate::json::JsonView,
)
    ensures
        plain_response(status, content_type, body).status == status,
        plain_response(status, content_type, body).content_type == content_type,
        plain_response(status, content_type, body).extra_headers.len() == 0,
        plain_response(status, content_type, body).body == body,
        text_response(status, text).status == status,
        text_response(status, text).content_type == "text/plain; charset=utf-8"@,
        text_response(status, text).extra_headers.len() == 0,
        text_response(status, text).body == encode_utf8(text),
        json_response(v).status == 200,
        json_response(v).content_type == "application/json"@,
        json_response(v).extra_headers.len() == 0,
        json_response(v).body == encode_utf8(crate::json::json_text(v)),
{
}

/// Answers to commands hold nothing but whether they went well and what they carry.
pub proof fn law_answers_hold_no_more(v: crate::json::JsonView, e: Seq<char>, other: Seq<char>)
    ensures
        other != "ok"@ && other != "data"@ ==> ok_value(v).member(other) is None,
        other != "ok"@ && other != "error"@ ==> err_value(e).member(other) is None,
{
    crate::json::lemma_entries_map(
        seq![("ok"@, crate::json::JsonView::Bool(true)), ("data"@, v)],
        other,
    );
    crate::json::lemma_entries_map(
        seq![
            ("ok"@, crate::json::JsonView::Bool(false)),
            ("error"@, crate::json::JsonView::Text(e)),
        ],
        other,
    );
}

/// Bytes carry a value exactly where they are the UTF-8 of a text that is read as it.
pub proof fn law_carried_values(body: Seq<u8>, text: Seq<char>, v: crate::json::JsonView)
    ensures
        body == encode_utf8(text) && (crate::json::parsed_text(text) matches Ok(w) && w == v)
            ==> carries(
            body,
            v,
        ),
        carries(body, v) ==> exists|t: Seq<char>|
            body == #[trigger] encode_utf8(t) && crate::json::parsed_text(t) is Ok
                && crate::json::parsed_text(t)->Ok_0 == v,
{
}

/// A request line is a method, white space and a target; white space before the method and what
/// stands behind the target are not looked at, and the root is asked for where there is no target.
pub proof fn law_request_line(
    lead: Seq<char>,
    method: Seq<char>,
    gap: Seq<char>,
    target: Seq<char>,
    rest: Seq<char>,
)
    requires
        crate::text::blank(lead),
        method.len() > 0,
        forall|i: int| 0 <= i < method.len() ==> !crate::text::is_space(#[trigger] method[i]),
        gap.len() > 0,
        crate::text::blank(gap),
        target.len() > 0,
        forall|i: int| 0 <= i < target.len() ==> !crate::text::is_space(#[trigger] target[i]),
        rest.len() > 0 ==> crate::text::is_space(rest[0]),
    ensures
        head_of(lead + method + (gap + target + rest)).method == method,
        target_of(lead + method + (gap + target + rest)) == target,
        head_of(lead + method + gap).method == method,
        target_of(lead + method + gap) == "/"@,
        head_of(lead + method).method == method,
        target_of(lead + method) == "/"@,
        head_of(lead).method.len() == 0,
        target_of(lead) == "/"@,
{
    let behind = gap + target + rest;
    assert(behind[0] == gap[0]);
    let none = Seq::<char>::empty();
    crate::text::law_first_word(lead, method, behind);
    crate::text::law_first_word(gap, target, rest);
    crate::text::law_first_word(lead, method, gap);
    crate::text::law_first_word(gap, none, none);
    assert(gap + none + none =~= gap);
    crate::text::law_first_word(lead, method, none);
    assert(lead + method + none =~= lead + method);
    crate::text::law_first_word(lead, none, none);
    assert(lead + none + none =~= lead);
    crate::text::law_first_word(none, none, none);
    assert(none + none + none =~= none);
}

/// A target is a path and, behind the first question mark, a query. The head that it opens has the
/// path with its escapes resolved, the query as it is, no headers yet, and the bytes of its line
/// counted.
pub proof fn law_targets(line: Seq<char>, p: Seq<char>, q: Seq<char>)
    requires
        !p.contains('?'),
    ensures
        raw_path(p.push('?') + q) == p,
        raw_query(p.push('?') + q) == q,
        raw_path(p) == p,
        raw_query(p).len() == 0,
        target_of(line) == p.push('?') + q
            ==> head_of(line).path == crate::percent::decoded(p) && head_of(
            line,
        ).query == q,
        target_of(line) == p ==> head_of(line).path == crate::percent::decoded(p) && head_of(
            line,
        ).query.len() == 0,
        head_of(line).headers.len() == 0,
        head_of(line).total == encode_utf8(line).len(),
{
    crate::text::law_split_at_first(p, '?', q);
}

/// A line with a colon adds a header: what stands before the first colon and behind it, without
/// white space around either. A line without one adds nothing.
pub proof fn law_header_line(h: Seq<(Seq<char>, Seq<char>)>, key: Seq<char>, value: Seq<char>)
    requires
        !key.contains(':'),
    ensures
        with_line(h, key.push(':') + value) == h.push(
            (crate::text::trimmed(key), crate::text::trimmed(value)),
        ),
        with_line(h, key) == h,
{
    crate::text::law_split_at_first(key, ':', value);
}

/// Each line is counted with all its bytes. Where there are more than 64 KiB, the head is refused;
/// else an empty line completes it, and any other adds its header. Nothing else of the head
/// changes.
pub proof fn law_one_line(head: HeadView, t: Seq<char>, b: Seq<char>)
    requires
        crate::text::blank(b),
        t.len() > 0 ==> !crate::text::is_space(t.last()),
    ensures
        ({
            let total = head.total + encode_utf8(t + b).len();
            let r = after_line(head, t + b);
            &&& total > 65536 ==> r is TooLarge
            &&& total <= 65536 && t.len() == 0
                ==> (r matches HeaderStepView::Complete(h) && h.total == total
                && h.method == head.method && h.path == head.path && h.query == head.query
                    && h.headers
                == head.headers)
            &&& total <= 65536 && t.len() > 0
                ==> (r matches HeaderStepView::More(h) && h.total == total
                && h.method == head.method && h.path == head.path && h.query == head.query
                    && h.headers
                == with_line(head.headers, t))
        }),
{
    crate::text::law_trimmed_end(t, b);
}

/// No body is announced without a `Content-Length`, or by one that is no number or none that the
/// machine can hold.
pub proof fn law_no_announced_length(h: Seq<(Seq<char>, Seq<char>)>, v: Seq<char>, n: nat)
    ensures
        first_header(h, "content-length"@) is None ==> announced_length(h) == 0,
        first_header(h, "content-length"@) == Some(v) && crate::text::unsigned(v) is None
            ==> announced_length(h) == 0,
        first_header(h, "content-length"@) == Some(v) && crate::text::unsigned(v) == Some(n) && n
            > usize::MAX ==> announced_length(h) == 0,
        first_header(h, "content-length"@) == Some(v) && crate::text::unsigned(v) == Some(n) && n
            <= usize::MAX ==> announced_length(h) == n,
{
}

/// Each status has its words, and one that is not known is told as if all were well.
pub proof fn law_reasons(status: u16)
    ensures
        reason_text(200) == "OK"@,
        reason_text(204) == "No Content"@,
        reason_text(304) == "Not Modified"@,
        reason_text(400) == "Bad Request"@,
        reason_text(404) == "Not Found"@,
        reason_text(405) == "Method Not Allowed"@,
        reason_text(500) == "Internal Server Error"@,
        status != 204 && status != 304 && status != 400 && status != 404 && status != 405
            && status != 500
            ==> reason_text(status) == "OK"@,
{
}

/// Lines one behind the other, each with its line end.
pub open spec fn joined(lines: Seq<Seq<char>>) -> Seq<char>
    decreases lines.len(),
{
    if lines.len() == 0 {
        Seq::empty()
    } else {
        lines[0] + seq!['\r', '\n'] + joined(lines.skip(1))
    }
}

/// The line of a header.
pub open spec fn named_line(h: (Seq<char>, Seq<char>)) -> Seq<char> {
    h.0 + seq![':', ' '] + h.1
}

proof fn lemma_joined(a: Seq<Seq<char>>, b: Seq<Seq<char>>)
    ensures
        joined(a + b) == joined(a) + joined(b),
    decreases a.len(),
{
    if a.len() == 0 {
        assert(a + b =~= b);
        assert(joined(a) + joined(b) =~= joined(b));
    } else {
        assert((a + b)[0] == a[0]);
        assert((a + b).skip(1) =~= a.skip(1) + b);
        lemma_joined(a.skip(1), b);
        assert(joined(a + b) =~= joined(a) + joined(b));
    }
}

proof fn lemma_header_lines(h: Seq<(Seq<char>, Seq<char>)>)
    ensures
        header_lines(h) == joined(h.map_values(|p: (Seq<char>, Seq<char>)| named_line(p))),
    decreases h.len(),
{
    let lines = h.map_values(|p: (Seq<char>, Seq<char>)| named_line(p));
    if h.len() > 0 {
        let before = h.drop_last();
        lemma_header_lines(before);
        let first = before.map_values(|p: (Seq<char>, Seq<char>)| named_line(p));
        let last = seq![named_line(h.last())];
        assert(lines =~= first + last);
        lemma_joined(first, last);
        assert(last.skip(1) =~= Seq::empty());
        reveal_with_fuel(joined, 2);
        reveal_strlit(": ");
        reveal_strlit("\r\n");
        assert(": "@ =~= seq![':', ' ']);
        assert("\r\n"@ =~= seq!['\r', '\n']);
        assert(header_lines(h) =~= joined(lines));
    }
}

/// The head of an answer is its lines: the status with its words, the content type, the length of
/// the body, whether the connection is kept, each further header in order, and an empty line.
pub proof fn law_lines_of_an_answer(r: ResponseView, keep: bool)
    ensures
        response_head(r, keep) == joined(
            seq![
                "HTTP/1.1 "@ + crate::text::decimal(r.status as nat) + seq![' '] + reason_text(r.status),
                named_line(("Content-Type"@, r.content_type)),
                named_line(("Content-Length"@, crate::text::decimal(r.body.len()))),
                named_line(
                    (
                        "Connection"@,
                        if keep {
                            "keep-alive"@
                        } else {
                            "close"@
                        },
                    ),
                ),
            ] + r.extra_headers.map_values(|p: (Seq<char>, Seq<char>)| named_line(
                p)) + seq![Seq::empty()],
        ),
{
    let one = "HTTP/1.1 "@ + crate::text::decimal(r.status as nat) + seq![' '] + reason_text(
        r.status);
    let two = named_line(("Content-Type"@, r.content_type));
    let three = named_line(("Content-Length"@, crate::text::decimal(r.body.len())));
    let four = named_line(("Connection"@, connection_word(keep)));
    let fixed = seq![one, two, three, four];
    let extra = r.extra_headers.map_values(|p: (Seq<char>, Seq<char>)| named_line(p));
    let last = seq![Seq::<char>::empty()];
    lemma_joined(fixed, extra);
    lemma_joined(fixed + extra, last);
    lemma_header_lines(r.extra_headers);
    lemma_fixed_lines(one, two, three, four);
    reveal_with_fuel(joined, 2);
    assert(last.skip(1) =~= Seq::empty());
    reveal_strlit("\r\n");
    reveal_strlit(" ");
    reveal_strlit("Content-Type");
    reveal_strlit("Content-Length");
    reveal_strlit("Connection");
    reveal_strlit("\r\nContent-Type: ");
    reveal_strlit("\r\nContent-Length: ");
    reveal_strlit("\r\nConnection: ");
    let end = seq!['\r', '\n'];
    let mark = seq![':', ' '];
    assert("\r\n"@ =~= end);
    assert(" "@ =~= seq![' ']);
    assert("\r\nContent-Type: "@ =~= end + "Content-Type"@ + mark);
    assert("\r\nContent-Length: "@ =~= end + "Content-Length"@ + mark);
    assert("\r\nConnection: "@ =~= end + "Connection"@ + mark);
    assert(joined(last) =~= end);
    let status = "HTTP/1.1 "@ + crate::text::decimal(r.status as nat) + " "@ + reason_text(
        r.status);
    assert(status == one);
    assert(response_head(
        r, keep) =~= one + end + two + end + three + end + four + end + header_lines(
        r.extra_headers,
    ) + end);
    assert(joined(fixed + extra + last) =~= response_head(r, keep));
}

proof fn lemma_fixed_lines(one: Seq<char>, two: Seq<char>, three: Seq<char>, four: Seq<char>)
    ensures
        joined(seq![one, two, three, four])
            == one + seq!['\r', '\n'] + two + seq!['\r', '\n'] + three
            + seq!['\r', '\n'] + four + seq!['\r', '\n'],
{
    reveal_with_fuel(joined, 5);
    let a = seq![one, two, three, four];
    assert(a.skip(1) =~= seq![two, three, four]);
    assert(a.skip(1).skip(1) =~= seq![three, four]);
    assert(a.skip(1).skip(1).skip(1) =~= seq![four]);
    assert(a.skip(1).skip(1).skip(1).skip(1) =~= Seq::empty());
    assert(joined(a) =~= one + seq!['\r', '\n'] + two + seq!['\r', '\n'] + three + seq!['\r', '\n']
        + four + seq!['\r', '\n']);
}

/// An answer is written as the bytes of its head and its body, and to a `HEAD` request as those of
/// its head. The connection is kept, and says so, exactly where the request keeps it; a hand-over
/// writes nothing.
pub proof fn law_turns(q: RequestView, r: ResponseView)
    ensures
        turn_of(q, ReplyView::Respond(r)) matches TurnView::Write { bytes, keep } && {
            &&& keep == keeps_alive(q.headers)
            &&& q.method == "HEAD"@ ==> bytes == encode_utf8(response_head(r, keep))
            &&& q.method != "HEAD"@ ==> bytes == encode_utf8(response_head(r, keep)) + r.body
        },
        turn_of(q, ReplyView::TakeOver) is TakeOver,
{
    assert(encode_utf8(response_head(r, keeps_alive(q.headers))) + Seq::empty() =~= encode_utf8(
        response_head(r, keeps_alive(q.headers)),
    ));
}

/// A request that came is the one that is answered, and nothing is where none came.
pub proof fn law_received(q: Request)
    ensures
        request_of(Received::Request(q)) == Some(q@),
        request_of(Received::Ended) is None,
        request_of(Received::Failed) is None,
{
}

/// Another round follows exactly where a request came, was met with an answer that was written, and
/// keeps its connection; nothing is done where none came.
pub proof fn law_rounds(r: Round)
    ensures
        runs_on(r) <==> r.read is Some && r.reply is Respond && r.written && keeps_alive(
            r.read->0.headers,
        ),
        r.read is None ==> acts_of(r).len() == 0,
{
}

/// What is carried shows each of its parts.
pub proof fn law_http_parts(
    q: Request,
    r: Response,
    h: Head,
    reply: Reply,
    step: HeaderStep,
    turn: Turn,
    p: Seq<(String, String)>,
    i: int,
)
    ensures
        pairs(p).len() == p.len(),
        0 <= i < p.len() ==> pairs(p)[i] == (p[i].0@, p[i].1@),
        q@.method == q.method@,
        q@.path == q.path@,
        q@.query == q.query@,
        q@.headers == pairs(q.headers@),
        q@.body == q.body@,
        r@.status == r.status,
        r@.content_type == r.content_type@,
        r@.extra_headers == pairs(r.extra_headers@),
        r@.body == r.body@,
        h@.method == h.method@,
        h@.path == h.path@,
        h@.query == h.query@,
        h@.headers == pairs(h.headers@),
        h@.total == h.total,
        match reply {
            Reply::Respond(resp) => reply@ matches ReplyView::Respond(v) && v == resp@,
            Reply::TakeOver => reply@ is TakeOver,
        },
        match step {
            HeaderStep::More(n) => step@ matches HeaderStepView::More(v) && v == n@,
            HeaderStep::Complete(n) => step@ matches HeaderStepView::Complete(v) && v == n@,
            HeaderStep::TooLarge => step@ is TooLarge,
        },
        match turn {
            Turn::Write { bytes, keep } => turn@ matches TurnView::Write { bytes: b, keep: k }
                && b == bytes@
                && k == keep,
            Turn::TakeOver => turn@ is TakeOver,
        },
{
}

} // verus!
