//! Parsing a raw text buffer into a structured HTTP request: the start
//! line, the header lines up to the first blank line, and the body.
use crate::dict::Dict;
use crate::method::{lemma_method_token_clean, method_of, string_to_http_method, HttpMethod};
use crate::strutil::{
    is_nul_blank, join_from, join_on, lemma_split_char_prepend, lemma_split_char_whole,
    lemma_split_on_len, split_on, split_str, trim_nul, trim_nul_str,
};
use vstd::prelude::*;

verus! {

/// The mathematical content of a parsed request.
pub struct RequestView {
    pub method: HttpMethod,
    pub uri: Seq<char>,
    pub headers: Map<Seq<char>, Seq<char>>,
    pub body: Seq<char>,
}

/// The mathematical content of a parse error.
pub enum ParseErrorView {
    MalformedStartLine,
    UnknownMethod,
    MalformedHeader(Seq<char>),
}

/// The ways parsing a raw request can fail.  Every one is surfaced to the
/// client as a `400 Bad Request` response carrying [`ParseError::message`]
/// as its body.
#[derive(Debug)]
pub enum ParseError {
    /// The start line has fewer than three space-separated tokens.
    MalformedStartLine,
    /// The start-line method token names no method of the closed set.
    UnknownMethod,
    /// A header line (carried here) has no single `": "` separator.
    MalformedHeader(String),
}

impl View for ParseError {
    type V = ParseErrorView;

    open spec fn view(&self) -> ParseErrorView {
        match self {
            ParseError::MalformedStartLine => ParseErrorView::MalformedStartLine,
            ParseError::UnknownMethod => ParseErrorView::UnknownMethod,
            ParseError::MalformedHeader(line) => ParseErrorView::MalformedHeader(line@),
        }
    }
}

/// The error message carried by a `400 Bad Request` response.
pub open spec fn spec_message(e: ParseErrorView) -> Seq<char> {
    match e {
        ParseErrorView::MalformedStartLine => "Invalid start line"@,
        ParseErrorView::UnknownMethod => "Failed to parse HTTP request: Invalid request method"@,
        ParseErrorView::MalformedHeader(line) => "Invalid header: "@ + line,
    }
}

impl ParseError {
    /// Renders the error as the message of the original parser.
    pub fn message(&self) -> (r: String)
        ensures
            r@ == spec_message(self@),
    {
        match self {
            ParseError::MalformedStartLine => String::from_str("Invalid start line"),
            ParseError::UnknownMethod => String::from_str(
                "Failed to parse HTTP request: Invalid request method",
            ),
            ParseError::MalformedHeader(line) => {
                let mut r = String::from_str("Invalid header: ");
                r.append(line.as_str());
                r
            },
        }
    }
}

/// A start line split into its three tokens.
pub struct StartLine {
    pub method: String,
    pub uri: String,
    pub version: String,
}

/// The first three space-separated tokens of `line`, or `None` when there
/// are fewer than three.
pub open spec fn spec_parse_start_line(line: Seq<char>) -> Option<
    (Seq<char>, Seq<char>, Seq<char>),
> {
    let tokens = split_on(line, seq![' ']);
    if tokens.len() < 3 {
        None
    } else {
        Some((tokens[0], tokens[1], tokens[2]))
    }
}

/// Splits a start line on single spaces into method token, request URI and
/// protocol version.  Fails when fewer than three tokens are present.
pub fn parse_start_line(start_line: String) -> (r: Result<StartLine, ParseError>)
    ensures
        match r {
            Ok(sl) => spec_parse_start_line(start_line@) == Some(
                (sl.method@, sl.uri@, sl.version@),
            ),
            Err(e) => spec_parse_start_line(start_line@) is None
                && e@ == ParseErrorView::MalformedStartLine,
        },
{
    proof {
        reveal_strlit(" ");
        assert(" "@ =~= seq![' ']);
    }
    let parts = split_str(start_line.as_str(), " ");
    if parts.len() < 3 {
        Err(ParseError::MalformedStartLine)
    } else {
        Ok(
            StartLine {
                method: parts[0].clone(),
                uri: parts[1].clone(),
                version: parts[2].clone(),
            },
        )
    }
}

/// Round trip of the start line: rendering a method token of the closed
/// set, a non-empty URI without spaces and a version token without spaces
/// as `"<METHOD> <URI> <VERSION>"` and parsing the result recovers exactly
/// those three fields.
pub proof fn lemma_start_line_round_trip(method: Seq<char>, uri: Seq<char>, version: Seq<char>)
    requires
        method_of(method) is Some,
        uri.len() > 0,
        forall|i: int| 0 <= i < uri.len() ==> uri[i] != ' ',
        forall|i: int| 0 <= i < version.len() ==> version[i] != ' ',
    ensures
        spec_parse_start_line(method + " "@ + uri + " "@ + version) == Some(
            (method, uri, version),
        ),
{
    reveal_strlit(" ");
    assert(" "@ =~= seq![' ']);
    lemma_method_token_clean(method);
    let line = method + " "@ + uri + " "@ + version;
    let rest = uri + seq![' '] + version;
    assert(line =~= method + seq![' '] + rest);
    lemma_split_char_prepend(method, ' ', rest);
    lemma_split_char_prepend(uri, ' ', version);
    lemma_split_char_whole(version, ' ');
    let tokens = split_on(line, seq![' ']);
    assert(tokens == seq![method] + (seq![uri] + seq![version]));
    assert(tokens =~= seq![method, uri, version]);
    assert(tokens.len() == 3);
    assert(tokens[0] == method);
    assert(tokens[1] == uri);
    assert(tokens[2] == version);
}

/// The index of the first line at or after `i` that is blank once its NUL
/// padding is stripped, or the number of lines when none is.
pub open spec fn header_end(lines: Seq<Seq<char>>, i: int) -> int
    decreases lines.len() - i,
{
    if i >= lines.len() {
        i
    } else if trim_nul(lines[i]).len() == 0 {
        i
    } else {
        header_end(lines, i + 1)
    }
}

proof fn lemma_header_end_ge(lines: Seq<Seq<char>>, i: int)
    ensures
        header_end(lines, i) >= i,
    decreases lines.len() - i,
{
    if i < lines.len() && trim_nul(lines[i]).len() != 0 {
        lemma_header_end_ge(lines, i + 1);
    }
}

/// The index of the first header line in `[i, end)` that does not split
/// into exactly two pieces on `": "`, if any.
pub open spec fn first_bad_header(lines: Seq<Seq<char>>, i: int, end: int) -> Option<int>
    decreases end - i,
{
    if i >= end {
        None
    } else if split_on(lines[i], ": "@).len() != 2 {
        Some(i)
    } else {
        first_bad_header(lines, i + 1, end)
    }
}

proof fn lemma_first_bad_header_none(lines: Seq<Seq<char>>, i: int, end: int)
    requires
        forall|j: int| i <= j < end ==> split_on(lines[j], ": "@).len() == 2,
    ensures
        first_bad_header(lines, i, end) is None,
    decreases end - i,
{
    if i < end {
        lemma_first_bad_header_none(lines, i + 1, end);
    }
}

proof fn lemma_first_bad_header_some(lines: Seq<Seq<char>>, i: int, k: int, end: int)
    requires
        i <= k < end,
        forall|j: int| i <= j < k ==> split_on(lines[j], ": "@).len() == 2,
        split_on(lines[k], ": "@).len() != 2,
    ensures
        first_bad_header(lines, i, end) == Some(k),
    decreases k - i,
{
    if i < k {
        lemma_first_bad_header_some(lines, i + 1, k, end);
    }
}

/// The header mapping collected from lines `1` up to (excluding) `i`: each
/// line contributes its `": "`-separated name and value, a later line
/// overriding an earlier one with the same name.
pub open spec fn headers_map(lines: Seq<Seq<char>>, i: int) -> Map<Seq<char>, Seq<char>>
    decreases i,
{
    if i <= 1 {
        Map::empty()
    } else {
        let parts = split_on(lines[i - 1], ": "@);
        headers_map(lines, i - 1).insert(parts[0], parts[1])
    }
}

/// The body carried after the blank line at index `h`: the remaining lines
/// rejoined with CRLF and trimmed of NUL padding, or empty when the header
/// lines ran out without a blank line.
pub open spec fn body_view(lines: Seq<Seq<char>>, h: int) -> Seq<char> {
    if h < lines.len() {
        trim_nul(join_on(lines.subrange(h + 1, lines.len() as int), "\r\n"@))
    } else {
        Seq::empty()
    }
}

/// What parsing a raw buffer yields: the request assembled from the start
/// line, the well-formed header lines before the first blank line, and the
/// body behind it; or the first error the parser meets, in the order start
/// line, method, headers.
pub open spec fn spec_parse_request(s: Seq<char>) -> Result<RequestView, ParseErrorView> {
    let lines = split_on(s, "\r\n"@);
    match spec_parse_start_line(lines[0]) {
        None => Err(ParseErrorView::MalformedStartLine),
        Some(tokens) => match method_of(tokens.0) {
            None => Err(ParseErrorView::UnknownMethod),
            Some(m) => {
                let h = header_end(lines, 1);
                match first_bad_header(lines, 1, h) {
                    Some(j) => Err(ParseErrorView::MalformedHeader(lines[j])),
                    None => Ok(
                        RequestView {
                            method: m,
                            uri: tokens.1,
                            headers: headers_map(lines, h),
                            body: body_view(lines, h),
                        },
                    ),
                }
            },
        },
    }
}

/// One parsed client request: read-only once constructed.
pub struct Request {
    body: String,
    headers: Dict,
    method: HttpMethod,
    uri: String,
}

impl View for Request {
    type V = RequestView;

    closed spec fn view(&self) -> RequestView {
        RequestView {
            method: self.method,
            uri: self.uri@,
            headers: self.headers@,
            body: self.body@,
        }
    }
}

/// Read access to a parsed request, the interface a route handler sees.
pub trait FlorenceRequest {
    spec fn request_view(&self) -> RequestView;

    fn get_method(&self) -> (m: &HttpMethod)
        ensures
            *m == self.request_view().method,
    ;
}

impl FlorenceRequest for Request {
    open spec fn request_view(&self) -> RequestView {
        self@
    }

    fn get_method(&self) -> (m: &HttpMethod) {
        &self.method
    }
}

impl Request {
    /// Assembles a request from its parts.
    pub fn new(method: HttpMethod, uri: String, body: String, headers: Dict) -> (r: Request)
        ensures
            r@ == (RequestView { method, uri: uri@, headers: headers@, body: body@ }),
    {
        Request { body, headers, method, uri }
    }

    /// The raw request-target of the start line.
    pub fn uri(&self) -> (u: &String)
        ensures
            u@ == self@.uri,
    {
        &self.uri
    }

    /// The body, trimmed of NUL padding.
    pub fn body(&self) -> (b: &String)
        ensures
            b@ == self@.body,
    {
        &self.body
    }

    /// The header mapping, keyed by name exactly as received.
    pub fn headers(&self) -> (h: &Dict)
        ensures
            h@ == self@.headers,
    {
        &self.headers
    }
}

/// Parses a raw buffer into a request, exactly as [`spec_parse_request`]
/// describes: split into CRLF lines, parse the start line and its method
/// token, collect `name: value` header lines up to the first blank line,
/// and keep the rejoined remainder, trimmed of NUL padding, as the body.
#[verifier::loop_isolation(true)]
pub fn parse_request(http_request: String) -> (r: Result<Request, ParseError>)
    ensures
        match r {
            Ok(req) => spec_parse_request(http_request@) == Ok::<RequestView, ParseErrorView>(
                req@,
            ),
            Err(e) => spec_parse_request(http_request@) == Err::<RequestView, ParseErrorView>(
                e@,
            ),
        },
{
    proof {
        reveal_strlit("\r\n");
        reveal_strlit(": ");
        assert("\r\n"@.len() == 2);
        assert(": "@.len() == 2);
    }
    let lines = split_str(http_request.as_str(), "\r\n");
    let ghost lv = lines.deep_view();
    proof {
        lemma_split_on_len(http_request@, "\r\n"@);
    }
    let sl = match parse_start_line(lines[0].clone()) {
        Ok(sl) => sl,
        Err(e) => {
            return Err(e);
        },
    };
    let method = match string_to_http_method(&sl.method) {
        Ok(m) => m,
        Err(_msg) => {
            return Err(ParseError::UnknownMethod);
        },
    };
    let mut headers = Dict::new();
    let mut i: usize = 1;
    while i < lines.len()
        invariant
            lv == lines.deep_view(),
            lv == split_on(http_request@, "\r\n"@),
            ": "@.len() == 2,
            spec_parse_start_line(lv[0]) == Some((sl.method@, sl.uri@, sl.version@)),
            method_of(sl.method@) == Some(method),
            1 <= i <= lv.len(),
            header_end(lv, 1) == header_end(lv, i as int),
            forall|j: int| 1 <= j < i ==> split_on(lv[j], ": "@).len() == 2,
            forall|j: int| 1 <= j < i ==> trim_nul(lv[j]).len() != 0,
            headers@ == headers_map(lv, i as int),
        ensures
            1 <= i <= lv.len(),
            header_end(lv, 1) == i as int,
            forall|j: int| 1 <= j < i ==> split_on(lv[j], ": "@).len() == 2,
            headers@ == headers_map(lv, i as int),
        decreases lv.len() - i,
    {
        if is_nul_blank(lines[i].as_str()) {
            break ;
        }
        let parts = split_str(lines[i].as_str(), ": ");
        if parts.len() != 2 {
            proof {
                lemma_header_end_ge(lv, i as int + 1);
                lemma_first_bad_header_some(lv, 1, i as int, header_end(lv, 1));
            }
            return Err(ParseError::MalformedHeader(lines[i].clone()));
        }
        headers.insert(parts[0].clone(), parts[1].clone());
        i = i + 1;
    }
    proof {
        lemma_first_bad_header_none(lv, 1, i as int);
    }
    let body: String;
    if i < lines.len() {
        let joined = join_from(&lines, i + 1, "\r\n");
        body = trim_nul_str(joined.as_str());
    } else {
        body = String::new();
    }
    let req = Request { body, headers, method, uri: sl.uri };
    Ok(req)
}

} // verus!
