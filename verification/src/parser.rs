//! The request parser: splits the raw request text into a request line and a
//! header block, classifies the verb, delegates the target to the URI parser,
//! normalizes the protocol token, and types each header line.

use vstd::prelude::*;
use vstd::string::StringExecFns;
use crate::text::{
    to_chars, trim_chars, lower_chars, string_of, single, pair, split_on, chars_eq, parse_dec,
    trim, lower, split_by, dec_parses, dec_value,
};
use crate::uri::{Uri, UriModel, parse_uri};

verus! {

/// Why a parse failed; every failure of the parser is one of these kinds.
#[derive(Debug, Clone, Copy, PartialEq, Eq, Structural)]
pub enum HttpParseError {
    InvalidUri,
    InvalidHttpMethod,
    InvalidHttpVersion,
    InvalidHeader,
    InvalidRequest,
    NonNumericContentLength,
}

/// The text of each error kind.
pub open spec fn error_text(e: HttpParseError) -> Seq<char> {
    match e {
        HttpParseError::InvalidUri => "Invalid URL"@,
        HttpParseError::InvalidHttpMethod => "Invalid HTTP method"@,
        HttpParseError::InvalidHttpVersion => "Invalid HTTP version"@,
        HttpParseError::InvalidHeader => "Invalid header"@,
        HttpParseError::InvalidRequest => "Invalid request"@,
        HttpParseError::NonNumericContentLength => "Non numeric content length"@,
    }
}

impl HttpParseError {
    /// A short description of the error, for messages.
    pub fn message(&self) -> (r: &'static str)
        ensures
            r@ == error_text(*self),
    {
        match self {
            HttpParseError::InvalidUri => "Invalid URL",
            HttpParseError::InvalidHttpMethod => "Invalid HTTP method",
            HttpParseError::InvalidHttpVersion => "Invalid HTTP version",
            HttpParseError::InvalidHeader => "Invalid header",
            HttpParseError::InvalidRequest => "Invalid request",
            HttpParseError::NonNumericContentLength => "Non numeric content length",
        }
    }
}

/// A bag of tokens, as handed around by transport code.
#[derive(Debug, Clone, PartialEq)]
pub struct Parser {
    pub tokens: Vec<String>,
}

/// The request methods the parser accepts; an unrecognized token is a parse
/// failure, not a variant.
#[derive(Debug, Clone, Copy, PartialEq, Eq, Structural)]
pub enum Verb {
    Get,
    Post,
    Put,
    Patch,
    Delete,
}

/// The lower-case token that names each verb.
pub open spec fn verb_name(v: Verb) -> Seq<char> {
    match v {
        Verb::Get => "get"@,
        Verb::Post => "post"@,
        Verb::Put => "put"@,
        Verb::Patch => "patch"@,
        Verb::Delete => "delete"@,
    }
}

/// The canonical upper-case display form of each verb.
pub open spec fn verb_display(v: Verb) -> Seq<char> {
    match v {
        Verb::Get => "GET"@,
        Verb::Post => "POST"@,
        Verb::Put => "PUT"@,
        Verb::Patch => "PATCH"@,
        Verb::Delete => "DELETE"@,
    }
}

/// Classifies a verb token: trimmed and lower-cased, it must equal one of
/// the five verb names; anything else is no verb.
pub open spec fn verb_of(t: Seq<char>) -> Option<Verb> {
    let k = lower(trim(t));
    if k == verb_name(Verb::Get) {
        Some(Verb::Get)
    } else if k == verb_name(Verb::Post) {
        Some(Verb::Post)
    } else if k == verb_name(Verb::Put) {
        Some(Verb::Put)
    } else if k == verb_name(Verb::Patch) {
        Some(Verb::Patch)
    } else if k == verb_name(Verb::Delete) {
        Some(Verb::Delete)
    } else {
        None
    }
}

/// Classifies a verb token held as characters.
fn classify_verb(t: &Vec<char>) -> (r: Option<Verb>)
    ensures
        r == verb_of(t@),
{
    let key = lower_chars(&trim_chars(t));
    if chars_eq(&key, &to_chars("get")) {
        Some(Verb::Get)
    } else if chars_eq(&key, &to_chars("post")) {
        Some(Verb::Post)
    } else if chars_eq(&key, &to_chars("put")) {
        Some(Verb::Put)
    } else if chars_eq(&key, &to_chars("patch")) {
        Some(Verb::Patch)
    } else if chars_eq(&key, &to_chars("delete")) {
        Some(Verb::Delete)
    } else {
        None
    }
}

impl Verb {
    /// The display form of the verb, e.g. `"GET"`.
    pub fn to_string(&self) -> (r: String)
        ensures
            r@ == verb_display(*self),
    {
        match self {
            Verb::Get => String::from_str("GET"),
            Verb::Post => String::from_str("POST"),
            Verb::Put => String::from_str("PUT"),
            Verb::Patch => String::from_str("PATCH"),
            Verb::Delete => String::from_str("DELETE"),
        }
    }

    /// Classifies a verb token, in any letter-casing and with surrounding
    /// whitespace ignored; an unrecognized token is `InvalidHttpMethod`.
    pub fn from_str(s: &str) -> (r: Result<Verb, HttpParseError>)
        ensures
            match r {
                Ok(v) => verb_of(s@) == Some(v),
                Err(e) => verb_of(s@) is None && e == HttpParseError::InvalidHttpMethod,
            },
    {
        match classify_verb(&to_chars(s)) {
            Some(v) => Ok(v),
            None => Err(HttpParseError::InvalidHttpMethod),
        }
    }
}

/// The mathematical value of a [`Header`].
#[verifier::ext_equal]
pub ghost enum HeaderModel {
    Host(Seq<char>),
    Accept(Seq<char>),
    Authorization(Seq<char>),
    Referer(Seq<char>),
    UserAgent(Seq<char>),
    ContentLength(nat),
    ContentType(Seq<char>),
    OtherHeader(Seq<char>, Seq<char>),
}

/// A classified header line: one of six well-known names, each holding its
/// trimmed value, or the catch-all `OtherHeader`, which keeps the trimmed
/// name in its original casing together with the trimmed value.
#[derive(Debug, Clone, PartialEq)]
pub enum Header {
    Host(String),
    Accept(String),
    Authorization(String),
    Referer(String),
    UserAgent(String),
    ContentLength(usize),
    ContentType(String),
    OtherHeader(String, String),
}

impl View for Header {
    type V = HeaderModel;

    open spec fn view(&self) -> HeaderModel {
        match self {
            Header::Host(v) => HeaderModel::Host(v@),
            Header::Accept(v) => HeaderModel::Accept(v@),
            Header::Authorization(v) => HeaderModel::Authorization(v@),
            Header::Referer(v) => HeaderModel::Referer(v@),
            Header::UserAgent(v) => HeaderModel::UserAgent(v@),
            Header::ContentLength(n) => HeaderModel::ContentLength(*n as nat),
            Header::ContentType(v) => HeaderModel::ContentType(v@),
            Header::OtherHeader(n, v) => HeaderModel::OtherHeader(n@, v@),
        }
    }
}

/// The models of a sequence of headers.
pub open spec fn headers_view(hs: Seq<Header>) -> Seq<HeaderModel> {
    hs.map_values(|h: Header| h@)
}

/// What classifying one header line yields. The line must split on `:` into
/// exactly a name and a value; the name, trimmed and lower-cased, selects
/// the variant; a `content-length` value must be a decimal numeral.
pub open spec fn header_line_spec(line: Seq<char>) -> Result<HeaderModel, HttpParseError> {
    let parts = split_by(line, seq![':']);
    if parts.len() != 2 {
        Err(HttpParseError::InvalidHeader)
    } else {
        let key = lower(trim(parts[0]));
        let value = trim(parts[1]);
        if key == "host"@ {
            Ok(HeaderModel::Host(value))
        } else if key == "accept"@ {
            Ok(HeaderModel::Accept(value))
        } else if key == "authorization"@ {
            Ok(HeaderModel::Authorization(value))
        } else if key == "referer"@ {
            Ok(HeaderModel::Referer(value))
        } else if key == "user-agent"@ {
            Ok(HeaderModel::UserAgent(value))
        } else if key == "content-type"@ {
            Ok(HeaderModel::ContentType(value))
        } else if key == "content-length"@ {
            if dec_parses(value) {
                Ok(HeaderModel::ContentLength(dec_value(value)))
            } else {
                Err(HttpParseError::NonNumericContentLength)
            }
        } else {
            Ok(HeaderModel::OtherHeader(trim(parts[0]), value))
        }
    }
}

/// What classifying a whole header block yields: each line in order, or the
/// first failure.
pub open spec fn headers_spec(lines: Seq<Seq<char>>) -> Result<Seq<HeaderModel>, HttpParseError>
    decreases lines.len(),
{
    if lines.len() == 0 {
        Ok(Seq::<HeaderModel>::empty())
    } else {
        match header_line_spec(lines[0]) {
            Err(e) => Err(e),
            Ok(h) => match headers_spec(lines.skip(1)) {
                Err(e) => Err(e),
                Ok(rest) => Ok(seq![h] + rest),
            },
        }
    }
}

/// Classifies one header line held as characters.
fn classify_header(line: &Vec<char>) -> (r: Result<Header, HttpParseError>)
    ensures
        match (r, header_line_spec(line@)) {
            (Ok(h), Ok(m)) => h@ == m,
            (Err(e), Err(em)) => e == em,
            _ => false,
        },
{
    let colon = single(':');
    let parts = split_on(line, &colon);
    if parts.len() != 2 {
        return Err(HttpParseError::InvalidHeader);
    }
    proof {
        assert(parts@[0].deep_view() =~= parts@[0]@);
        assert(parts@[1].deep_view() =~= parts@[1]@);
    }
    let name_raw = trim_chars(&parts[0]);
    let key = lower_chars(&name_raw);
    let value = trim_chars(&parts[1]);
    if chars_eq(&key, &to_chars("host")) {
        Ok(Header::Host(string_of(&value)))
    } else if chars_eq(&key, &to_chars("accept")) {
        Ok(Header::Accept(string_of(&value)))
    } else if chars_eq(&key, &to_chars("authorization")) {
        Ok(Header::Authorization(string_of(&value)))
    } else if chars_eq(&key, &to_chars("referer")) {
        Ok(Header::Referer(string_of(&value)))
    } else if chars_eq(&key, &to_chars("user-agent")) {
        Ok(Header::UserAgent(string_of(&value)))
    } else if chars_eq(&key, &to_chars("content-type")) {
        Ok(Header::ContentType(string_of(&value)))
    } else if chars_eq(&key, &to_chars("content-length")) {
        match parse_dec(&value) {
            Some(n) => Ok(Header::ContentLength(n)),
            None => Err(HttpParseError::NonNumericContentLength),
        }
    } else {
        Ok(Header::OtherHeader(string_of(&name_raw), string_of(&value)))
    }
}

/// Classifies the header block, the lines of `lines` from `start` on.
fn parse_headers(lines: &Vec<Vec<char>>, start: usize) -> (r: Result<
    Vec<Header>,
    HttpParseError,
>)
    requires
        start <= lines@.len(),
    ensures
        match (r, headers_spec(lines.deep_view().skip(start as int))) {
            (Ok(hs), Ok(ms)) => headers_view(hs@) == ms,
            (Err(e), Err(em)) => e == em,
            _ => false,
        },
{
    let ghost all = lines.deep_view();
    let mut acc: Vec<Header> = Vec::new();
    let mut i: usize = start;
    proof {
        assert(headers_view(acc@) =~= Seq::<HeaderModel>::empty());
    }
    while i < lines.len()
        invariant
            start <= i <= lines@.len(),
            all == lines.deep_view(),
            lines@.len() == all.len(),
            headers_spec(all.skip(start as int)) == (match headers_spec(all.skip(i as int)) {
                Ok(rest) => Ok::<Seq<HeaderModel>, HttpParseError>(headers_view(acc@) + rest),
                Err(e) => Err::<Seq<HeaderModel>, HttpParseError>(e),
            }),
        decreases lines@.len() - i,
    {
        proof {
            assert(all.skip(i as int).len() > 0);
            assert(all.skip(i as int)[0] == all[i as int]);
            assert(all.skip(i as int).skip(1) =~= all.skip(i + 1));
            assert(lines@[i as int].deep_view() =~= lines@[i as int]@);
        }
        match classify_header(&lines[i]) {
            Err(e) => {
                return Err(e);
            },
            Ok(h) => {
                let ghost old_acc = acc@;
                acc.push(h);
                proof {
                    assert(headers_view(acc@) =~= headers_view(old_acc).push(h@));
                    if headers_spec(all.skip(i + 1)) is Ok {
                        let rest = headers_spec(all.skip(i + 1))->Ok_0;
                        assert(headers_view(old_acc) + (seq![h@] + rest) =~= headers_view(acc@)
                            + rest);
                    }
                }
            },
        }
        i = i + 1;
    }
    proof {
        assert(all.skip(i as int) =~= Seq::<Seq<char>>::empty());
    }
    Ok(acc)
}

/// The mathematical value of a [`RequestLine`].
#[verifier::ext_equal]
pub ghost struct RequestLineModel {
    pub verb: Verb,
    pub protocol: Seq<char>,
    pub url: UriModel,
}

/// The first line of a request: a verb, the normalized (trimmed,
/// lower-cased) protocol token, and the target URI.
#[derive(Debug, Clone)]
pub struct RequestLine {
    verb: Verb,
    protocol: String,
    url: Uri,
}

impl View for RequestLine {
    type V = RequestLineModel;

    closed spec fn view(&self) -> RequestLineModel {
        RequestLineModel { verb: self.verb, protocol: self.protocol@, url: self.url@ }
    }
}

impl RequestLine {
    /// The request's verb.
    pub fn verb(&self) -> (r: &Verb)
        ensures
            *r == self@.verb,
    {
        &self.verb
    }

    /// The normalized protocol token.
    pub fn protocol(&self) -> (r: &str)
        ensures
            r@ == self@.protocol,
    {
        self.protocol.as_str()
    }

    /// The target URI.
    pub fn url(&self) -> (r: &Uri)
        ensures
            r@ == self@.url,
    {
        &self.url
    }
}

/// The mathematical value of an [`HttpRequest`].
#[verifier::ext_equal]
pub ghost struct HttpRequestModel {
    pub request_line: RequestLineModel,
    pub headers: Seq<HeaderModel>,
}

/// A parsed request: the request line and the headers, in the order they
/// appeared in the input.
#[derive(Debug)]
pub struct HttpRequest {
    request_line: RequestLine,
    headers: Vec<Header>,
}

impl View for HttpRequest {
    type V = HttpRequestModel;

    closed spec fn view(&self) -> HttpRequestModel {
        HttpRequestModel { request_line: self.request_line@, headers: headers_view(self.headers@) }
    }
}

/// What parsing a whole request yields: the text is split into lines on
/// `"\r\n"`; the first line must hold exactly three space-separated tokens
/// (verb, target, protocol); every further line is a header line.
pub open spec fn parse_request_spec(s: Seq<char>) -> Result<HttpRequestModel, HttpParseError> {
    let lines = split_by(s, seq!['\r', '\n']);
    if lines.len() == 0 {
        Err(HttpParseError::InvalidRequest)
    } else {
        let toks = split_by(lines[0], seq![' ']);
        if toks.len() != 3 {
            Err(HttpParseError::InvalidRequest)
        } else {
            match verb_of(toks[0]) {
                None => Err(HttpParseError::InvalidHttpMethod),
                Some(verb) => match parse_uri(toks[1]) {
                    None => Err(HttpParseError::InvalidUri),
                    Some(url) => match headers_spec(lines.skip(1)) {
                        Err(e) => Err(e),
                        Ok(headers) => Ok(
                            HttpRequestModel {
                                request_line: RequestLineModel {
                                    verb,
                                    protocol: lower(trim(toks[2])),
                                    url,
                                },
                                headers,
                            },
                        ),
                    },
                },
            }
        }
    }
}

impl HttpRequest {
    /// Assembles a request from its parts.
    pub fn new(request_line: RequestLine, headers: Vec<Header>) -> (r: HttpRequest)
        ensures
            r@.request_line == request_line@,
            r@.headers == headers_view(headers@),
    {
        HttpRequest { request_line, headers }
    }

    /// The request's verb.
    pub fn verb(&self) -> (r: Verb)
        ensures
            r == self@.request_line.verb,
    {
        self.request_line.verb
    }

    /// The request's target URI.
    pub fn url(&self) -> (r: Uri)
        ensures
            r@ == self@.request_line.url,
    {
        let path = self.request_line.url.path.clone();
        let query = match &self.request_line.url.query {
            Some(q) => Some(q.clone()),
            None => None,
        };
        Uri { path, query }
    }

    /// The normalized protocol token.
    pub fn protocol(&self) -> (r: String)
        ensures
            r@ == self@.request_line.protocol,
    {
        self.request_line.protocol.clone()
    }

    /// All headers, in input order.
    pub fn get_headers(&self) -> (r: &Vec<Header>)
        ensures
            headers_view(r@) == self@.headers,
    {
        &self.headers
    }

    /// The header at `index`, if there is one.
    pub fn get_header(&self, index: usize) -> (r: Option<&Header>)
        ensures
            match r {
                Some(h) => index < self@.headers.len() && h@ == self@.headers[index as int],
                None => index >= self@.headers.len(),
            },
    {
        if index < self.headers.len() {
            Some(&self.headers[index])
        } else {
            None
        }
    }

    /// The request line.
    pub fn get_request_line(&self) -> (r: &RequestLine)
        ensures
            r@ == self@.request_line,
    {
        &self.request_line
    }

    /// Parses the head of a request — the request line and the header block
    /// — exactly as [`parse_request_spec`] describes, failing fast on the
    /// first violation.
    pub fn from_str(s: &str) -> (r: Result<HttpRequest, HttpParseError>)
        ensures
            match (r, parse_request_spec(s@)) {
                (Ok(req), Ok(m)) => req@ == m,
                (Err(e), Err(em)) => e == em,
                _ => false,
            },
    {
        let chars = to_chars(s);
        let crlf = pair('\r', '\n');
        let lines = split_on(&chars, &crlf);
        if lines.len() == 0 {
            return Err(HttpParseError::InvalidRequest);
        }
        proof {
            assert(lines@[0].deep_view() =~= lines@[0]@);
        }
        let space = single(' ');
        let toks = split_on(&lines[0], &space);
        if toks.len() != 3 {
            return Err(HttpParseError::InvalidRequest);
        }
        proof {
            assert(toks@[0].deep_view() =~= toks@[0]@);
            assert(toks@[1].deep_view() =~= toks@[1]@);
            assert(toks@[2].deep_view() =~= toks@[2]@);
        }
        let verb = match classify_verb(&toks[0]) {
            Some(v) => v,
            None => {
                return Err(HttpParseError::InvalidHttpMethod);
            },
        };
        let target = string_of(&toks[1]);
        let url = match Uri::from_str(target.as_str()) {
            Ok(u) => u,
            Err(_) => {
                return Err(HttpParseError::InvalidUri);
            },
        };
        let protocol = string_of(&lower_chars(&trim_chars(&toks[2])));
        let headers = match parse_headers(&lines, 1) {
            Ok(hs) => hs,
            Err(e) => {
                return Err(e);
            },
        };
        Ok(HttpRequest { request_line: RequestLine { verb, protocol, url }, headers })
    }
}

} // verus!
