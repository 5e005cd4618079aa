use vstd::prelude::*;
use vstd::slice::slice_subrange;
use vstd::utf8::{decode_utf8, valid_utf8};

use crate::http_header::{
    header_text, is_canonical_header_line, lemma_header_round_trip, parse_header_text, HeaderErrorView, HeaderView, HttpHeader, HttpHeaderError, UserAgent,
};
use crate::text::{
    find_char, find_crlf, find_elem, find_pair, lemma_find_elem, lemma_find_pair,
    str_eq, substring,
};

verus! {

/// The request methods that the server knows.
#[derive(Clone, Copy, Debug, PartialEq, Eq, Structural)]
pub enum HttpMethod {
    Get,
    Post,
}

/// A method token other than `GET` and `POST`.
#[derive(Clone, Copy, Debug, PartialEq, Eq, Structural)]
pub struct HttpMethodError;

/// Why a request could not be read from its bytes.
#[derive(Debug)]
pub enum RequestError {
    /// The bytes end before the request does.
    Incomplete,
    /// The request line or a header line is not UTF-8.
    InvalidEncoding,
    /// The request line does not start with a known method.
    InvalidMethod(HttpMethodError),
    /// The request line has no request target.
    MissingTarget,
    /// A header line is refused.
    InvalidHeader(HttpHeaderError),
    /// The body is not UTF-8.
    InvalidBody,
}

pub enum RequestErrorView {
    Incomplete,
    InvalidEncoding,
    InvalidMethod,
    MissingTarget,
    InvalidHeader(HeaderErrorView),
    InvalidBody,
}

impl View for RequestError {
    type V = RequestErrorView;

    open spec fn view(&self) -> RequestErrorView {
        match self {
            RequestError::Incomplete => RequestErrorView::Incomplete,
            RequestError::InvalidEncoding => RequestErrorView::InvalidEncoding,
            RequestError::InvalidMethod(_) => RequestErrorView::InvalidMethod,
            RequestError::MissingTarget => RequestErrorView::MissingTarget,
            RequestError::InvalidHeader(e) => RequestErrorView::InvalidHeader(e@),
            RequestError::InvalidBody => RequestErrorView::InvalidBody,
        }
    }
}

/// The method and request target of a request line.
pub struct RequestLine {
    request_target: String,
    http_method: HttpMethod,
}

/// The headers of a request, in the order they arrived.
pub struct HttpHeaders(Vec<HttpHeader>);

/// A parsed request.
pub struct HttpRequest {
    request_line: RequestLine,
    http_headers: HttpHeaders,
    body: Option<String>,
}

/// The mathematical value of a request.
pub struct RequestView {
    pub method: HttpMethod,
    pub target: Seq<char>,
    pub headers: Seq<HeaderView>,
    pub body: Option<Seq<char>>,
}

impl View for RequestLine {
    type V = (HttpMethod, Seq<char>);

    closed spec fn view(&self) -> (HttpMethod, Seq<char>) {
        (self.http_method, self.request_target@)
    }
}

impl View for HttpHeaders {
    type V = Seq<HeaderView>;

    closed spec fn view(&self) -> Seq<HeaderView> {
        self.0@.map_values(|h: HttpHeader| h@)
    }
}

impl View for HttpRequest {
    type V = RequestView;

    closed spec fn view(&self) -> RequestView {
        RequestView {
            method: self.request_line@.0,
            target: self.request_line@.1,
            headers: self.http_headers@,
            body: match self.body {
                Some(b) => Some(b@),
                None => None,
            },
        }
    }
}

pub open spec fn method_of(token: Seq<char>) -> Option<HttpMethod> {
    if token == "GET"@ {
        Some(HttpMethod::Get)
    } else if token == "POST"@ {
        Some(HttpMethod::Post)
    } else {
        None
    }
}

/// The characters that `b` encodes, if it is UTF-8.
pub open spec fn decoded(b: Seq<u8>) -> Option<Seq<char>> {
    if valid_utf8(b) {
        Some(decode_utf8(b))
    } else {
        None
    }
}

/// What a request line (without terminator) parses to: the method is the text before
/// the first space, the target the text after it, up to the next space or the end.
pub open spec fn parse_request_line_text(line: Seq<char>) -> Result<(HttpMethod, Seq<char>), RequestErrorView> {
    let first = find_elem(line, ' ', 0);
    let token = match first {
        Some(i) => line.take(i),
        None => line,
    };
    match method_of(token) {
        None => Err(RequestErrorView::InvalidMethod),
        Some(m) => match first {
            None => Err(RequestErrorView::MissingTarget),
            Some(i) => {
                let rest = line.skip(i + 1);
                match find_elem(rest, ' ', 0) {
                    Some(j) => Ok((m, rest.take(j))),
                    None => Ok((m, rest)),
                }
            },
        },
    }
}

/// The value of the last `Content-Length` header.
pub open spec fn last_content_length(hs: Seq<HeaderView>) -> Option<usize>
    decreases hs.len(),
{
    if hs.len() == 0 {
        None
    } else {
        match hs.last() {
            HeaderView::ContentLength(n) => Some(n),
            _ => last_content_length(hs.drop_last()),
        }
    }
}

/// The value of the last `User-Agent` header.
pub open spec fn last_user_agent(hs: Seq<HeaderView>) -> Option<Seq<char>>
    decreases hs.len(),
{
    if hs.len() == 0 {
        None
    } else {
        match hs.last() {
            HeaderView::UserAgent(v) => Some(v),
            _ => last_user_agent(hs.drop_last()),
        }
    }
}

/// The length of the body that the headers announce.
pub open spec fn body_length(hs: Seq<HeaderView>) -> int {
    match last_content_length(hs) {
        Some(n) => n as int,
        None => 0,
    }
}

/// The header lines of `s` from `pos` on, up to and including the empty line: the
/// headers, and the index just after the empty line.
pub open spec fn parse_header_block(s: Seq<u8>, pos: int) -> Result<(Seq<HeaderView>, int), RequestErrorView>
    decreases s.len() - pos,
    via parse_header_block_decreases
{
    match find_pair(s, 13u8, 10u8, pos) {
        None => Err(RequestErrorView::Incomplete),
        Some(e) => if e == pos {
            Ok((seq![], e + 2))
        } else {
            match decoded(s.subrange(pos, e)) {
                None => Err(RequestErrorView::InvalidEncoding),
                Some(line) => match parse_header_text(line) {
                    Err(he) => Err(RequestErrorView::InvalidHeader(he)),
                    Ok(h) => match parse_header_block(s, e + 2) {
                        Err(x) => Err(x),
                        Ok((hs, end)) => Ok((seq![h] + hs, end)),
                    },
                },
            }
        },
    }
}

#[via_fn]
proof fn parse_header_block_decreases(s: Seq<u8>, pos: int) {
    if pos >= 0 {
        lemma_find_pair(s, 13u8, 10u8, pos);
    }
}

/// What a request parses to from the start of `s`: the request, and how many bytes it
/// takes. The body is exactly as many bytes as the last `Content-Length` says.
pub open spec fn parse_request_bytes(s: Seq<u8>) -> Result<(RequestView, int), RequestErrorView> {
    match find_pair(s, 13u8, 10u8, 0) {
        None => Err(RequestErrorView::Incomplete),
        Some(e) => match decoded(s.take(e)) {
            None => Err(RequestErrorView::InvalidEncoding),
            Some(line) => match parse_request_line_text(line) {
                Err(x) => Err(x),
                Ok((m, t)) => match parse_header_block(s, e + 2) {
                    Err(x) => Err(x),
                    Ok((hs, head_end)) => {
                        let n = body_length(hs);
                        if n == 0 {
                            Ok((RequestView { method: m, target: t, headers: hs, body: None }, head_end))
                        } else if head_end + n > s.len() {
                            Err(RequestErrorView::Incomplete)
                        } else {
                            match decoded(s.subrange(head_end, head_end + n)) {
                                None => Err(RequestErrorView::InvalidBody),
                                Some(b) => Ok(
                                    (
                                        RequestView {
                                            method: m,
                                            target: t,
                                            headers: hs,
                                            body: Some(b),
                                        },
                                        head_end + n,
                                    ),
                                ),
                            }
                        }
                    },
                },
            },
        },
    }
}

/// Relies on std::str::from_utf8: it accepts exactly the UTF-8 byte sequences, and gives
/// the characters that they encode.
#[verifier::external_body]
fn utf8_string(b: &[u8]) -> (r: Option<String>)
    ensures
        r is Some <==> valid_utf8(b@),
        r matches Some(s) ==> s@ == decode_utf8(b@),
{
    match std::str::from_utf8(b) {
        Ok(s) => Some(s.to_owned()),
        Err(_) => None,
    }
}

impl HttpMethod {
    /// Parses a method token: exactly `GET` or `POST`.
    pub fn parse(token: &str) -> (r: Result<HttpMethod, HttpMethodError>)
        ensures
            match r {
                Ok(m) => method_of(token@) == Some(m),
                Err(_) => method_of(token@) is None,
            },
    {
        if str_eq(token, "GET") {
            Ok(HttpMethod::Get)
        } else if str_eq(token, "POST") {
            Ok(HttpMethod::Post)
        } else {
            Err(HttpMethodError)
        }
    }
}

impl RequestLine {
    /// Parses a request line, its terminator already removed.
    pub fn parse(line: &str) -> (r: Result<RequestLine, RequestError>)
        ensures
            match r {
                Ok(rl) => parse_request_line_text(line@) == Ok::<_, RequestErrorView>(rl@),
                Err(e) => parse_request_line_text(line@) == Err::<(HttpMethod, Seq<char>), _>(e@),
            },
    {
        let n = line.unicode_len();
        let first = find_char(line, ' ', 0);
        proof {
            lemma_find_elem(line@, ' ', 0);
        }
        let token = match first {
            Some(i) => substring(line, 0, i),
            None => line.to_owned(),
        };
        assert(first matches Some(i) ==> token@ =~= line@.take(i as int));
        let http_method = match HttpMethod::parse(token.as_str()) {
            Ok(m) => m,
            Err(e) => {
                return Err(RequestError::InvalidMethod(e));
            },
        };
        match first {
            None => Err(RequestError::MissingTarget),
            Some(i) => {
                let rest = substring(line, i + 1, n);
                assert(rest@ =~= line@.skip(i + 1));
                let second = find_char(rest.as_str(), ' ', 0);
                proof {
                    lemma_find_elem(rest@, ' ', 0);
                }
                let request_target = match second {
                    Some(j) => substring(rest.as_str(), 0, j),
                    None => rest,
                };
                assert(second matches Some(j) ==> request_target@ =~= rest@.take(j as int));
                Ok(RequestLine { request_target, http_method })
            },
        }
    }
}

impl HttpHeaders {
    pub fn new() -> (r: HttpHeaders)
        ensures
            r@ == Seq::<HeaderView>::empty(),
    {
        let r = HttpHeaders(Vec::new());
        assert(r@ =~= Seq::<HeaderView>::empty());
        r
    }

    /// Appends a header.
    pub fn add(&mut self, http_header: HttpHeader)
        ensures
            final(self)@ == old(self)@.push(http_header@),
    {
        self.0.push(http_header);
        assert(self@ =~= old(self)@.push(http_header@));
    }

    /// The value of the last `Content-Length` header, if any.
    pub fn content_length(&self) -> (r: Option<usize>)
        ensures
            r == last_content_length(self@),
    {
        let mut content_length_value: Option<usize> = None;
        let mut i: usize = 0;
        while i < self.0.len()
            invariant
                i <= self.0@.len(),
                self@.len() == self.0@.len(),
                content_length_value == last_content_length(self@.take(i as int)),
            decreases self.0@.len() - i,
        {
            assert(self@.take(i + 1).drop_last() =~= self@.take(i as int));
            assert(self@.take(i + 1).last() == self.0@[i as int]@);
            if let HttpHeader::ContentLength(content_length) = &self.0[i] {
                content_length_value = Some(content_length.value());
            }
            i = i + 1;
        }
        assert(self@.take(i as int) =~= self@);
        content_length_value
    }

    /// The last `User-Agent` header, if any.
    pub fn user_agent(&self) -> (r: Option<&UserAgent>)
        ensures
            match r {
                Some(ua) => last_user_agent(self@) == Some(ua@),
                None => last_user_agent(self@) is None,
            },
    {
        let mut i: usize = self.0.len();
        assert(self@.take(i as int) =~= self@);
        while i > 0
            invariant
                i <= self.0@.len(),
                self@.len() == self.0@.len(),
                last_user_agent(self@) == last_user_agent(self@.take(i as int)),
            decreases i,
        {
            assert(self@.take(i as int).drop_last() =~= self@.take(i - 1));
            assert(self@.take(i as int).last() == self.0@[i - 1]@);
            if let HttpHeader::UserAgent(user_agent) = &self.0[i - 1] {
                return Some(user_agent);
            }
            i = i - 1;
        }
        None
    }
}

/// The request that parsing the start of `s` gives, and the count of its bytes.
pub open spec fn request_result_view(r: Result<(HttpRequest, usize), RequestError>) -> Result<(RequestView, int), RequestErrorView> {
    match r {
        Ok((req, n)) => Ok((req@, n as int)),
        Err(e) => Err(e@),
    }
}

/// Reads the header lines of `s` from `from` on, up to and including the empty line.
fn read_header_block(s: &[u8], from: usize) -> (r: Result<(HttpHeaders, usize), RequestError>)
    requires
        from <= s@.len(),
    ensures
        match r {
            Ok((hs, end)) => end <= s@.len() && parse_header_block(s@, from as int) == Ok::<_, RequestErrorView>((hs@, end as int)),
            Err(x) => parse_header_block(s@, from as int) == Err::<(Seq<HeaderView>, int), _>(x@),
        },
{
    let len = s.len();
    let mut http_headers = HttpHeaders::new();
    let mut pos: usize = from;
    loop
        invariant
            len == s@.len(),
            from <= pos <= s@.len(),
            parse_header_block(s@, from as int) == match parse_header_block(s@, pos as int) {
                Ok((hs, end)) => Ok((http_headers@ + hs, end)),
                Err(x) => Err(x),
            },
        decreases s@.len() - pos,
    {
        let le = match find_crlf(s, pos) {
            None => {
                return Err(RequestError::Incomplete);
            },
            Some(le) => le,
        };
        proof {
            lemma_find_pair(s@, 13u8, 10u8, pos as int);
        }
        assert(le + 2 <= len);
        if le == pos {
            assert(http_headers@ + seq![] =~= http_headers@);
            return Ok((http_headers, le + 2));
        }
        let text = match utf8_string(slice_subrange(s, pos, le)) {
            None => {
                return Err(RequestError::InvalidEncoding);
            },
            Some(text) => text,
        };
        let h = match HttpHeader::parse(text.as_str()) {
            Ok(h) => h,
            Err(he) => {
                return Err(RequestError::InvalidHeader(he));
            },
        };
        let ghost before = http_headers@;
        http_headers.add(h);
        proof {
            let rest = parse_header_block(s@, le + 2);
            if rest is Ok {
                let hs = rest->Ok_0.0;
                assert(before + (seq![h@] + hs) =~= http_headers@ + hs);
            }
        }
        pos = le + 2;
    }
}

impl HttpRequest {
    /// Parses one request from the start of `input`. Returns the request and the number
    /// of bytes it took; `Incomplete` where `input` ends before the request does.
    pub fn parse(input: &[u8]) -> (r: Result<(HttpRequest, usize), RequestError>)
        ensures
            request_result_view(r) == parse_request_bytes(input@),
    {
        let s = input;
        let len = s.len();
        let e = match find_crlf(s, 0) {
            None => {
                return Err(RequestError::Incomplete);
            },
            Some(e) => e,
        };
        proof {
            lemma_find_pair(s@, 13u8, 10u8, 0);
        }
        let line = match utf8_string(slice_subrange(s, 0, e)) {
            None => {
                assert(s@.subrange(0, e as int) =~= s@.take(e as int));
                return Err(RequestError::InvalidEncoding);
            },
            Some(line) => line,
        };
        assert(s@.subrange(0, e as int) =~= s@.take(e as int));
        let request_line = match RequestLine::parse(line.as_str()) {
            Ok(rl) => rl,
            Err(x) => {
                return Err(x);
            },
        };
        assert(e + 2 <= len);
        let (http_headers, head_end) = match read_header_block(s, e + 2) {
            Ok(block) => block,
            Err(x) => {
                return Err(x);
            },
        };
        let n = match http_headers.content_length() {
            Some(n) => n,
            None => 0,
        };
        if n == 0 {
            let req = HttpRequest { request_line, http_headers, body: None };
            return Ok((req, head_end));
        }
        if n > s.len() - head_end {
            return Err(RequestError::Incomplete);
        }
        let body = match utf8_string(slice_subrange(s, head_end, head_end + n)) {
            None => {
                return Err(RequestError::InvalidBody);
            },
            Some(b) => b,
        };
        let req = HttpRequest { request_line, http_headers, body: Some(body) };
        Ok((req, head_end + n))
    }

    pub fn request_target(&self) -> (r: &str)
        ensures
            r@ == self@.target,
    {
        self.request_line.request_target.as_str()
    }

    pub fn http_method(&self) -> (r: &HttpMethod)
        ensures
            *r == self@.method,
    {
        &self.request_line.http_method
    }

    /// The last `User-Agent` header of the request, if any.
    pub fn user_agent(&self) -> (r: Option<&UserAgent>)
        ensures
            match r {
                Some(ua) => last_user_agent(self@.headers) == Some(ua@),
                None => last_user_agent(self@.headers) is None,
            },
    {
        self.http_headers.user_agent()
    }

    pub fn body(&self) -> (r: Option<&String>)
        ensures
            match r {
                Some(b) => self@.body == Some(b@),
                None => self@.body is None,
            },
    {
        self.body.as_ref()
    }
}

proof fn lemma_find_pair_agree(s1: Seq<u8>, s2: Seq<u8>, from: int, k: int)
    requires
        0 <= from,
        k <= s1.len(),
        k <= s2.len(),
        s1.take(k) == s2.take(k),
        find_pair(s1, 13u8, 10u8, from) matches Some(e) && e + 2 <= k,
    ensures
        find_pair(s2, 13u8, 10u8, from) == find_pair(s1, 13u8, 10u8, from),
    decreases s1.len() - from,
{
    lemma_find_pair(s1, 13u8, 10u8, from);
    assert(s1[from] == s1.take(k)[from] && s2[from] == s2.take(k)[from]);
    assert(s1[from + 1] == s1.take(k)[from + 1] && s2[from + 1] == s2.take(k)[from + 1]);
    if !(s1[from] == 13u8 && s1[from + 1] == 10u8) {
        lemma_find_pair_agree(s1, s2, from + 1, k);
    }
}

proof fn lemma_header_block_end(s: Seq<u8>, pos: int)
    requires
        0 <= pos,
        parse_header_block(s, pos) is Ok,
    ensures
        pos < parse_header_block(s, pos)->Ok_0.1 <= s.len(),
    decreases s.len() - pos,
{
    lemma_find_pair(s, 13u8, 10u8, pos);
    let e = find_pair(s, 13u8, 10u8, pos)->Some_0;
    if e != pos {
        lemma_header_block_end(s, e + 2);
    }
}

proof fn lemma_header_block_agree(s1: Seq<u8>, s2: Seq<u8>, pos: int, k: int)
    requires
        0 <= pos,
        k <= s1.len(),
        k <= s2.len(),
        s1.take(k) == s2.take(k),
        parse_header_block(s1, pos) matches Ok((_, end)) && end <= k,
    ensures
        parse_header_block(s2, pos) == parse_header_block(s1, pos),
    decreases s1.len() - pos,
{
    lemma_find_pair(s1, 13u8, 10u8, pos);
    let e = find_pair(s1, 13u8, 10u8, pos)->Some_0;
    if e != pos {
        lemma_header_block_end(s1, e + 2);
    }
    lemma_find_pair_agree(s1, s2, pos, k);
    if e != pos {
        assert(s1.subrange(pos, e) =~= s1.take(k).subrange(pos, e));
        assert(s2.subrange(pos, e) =~= s2.take(k).subrange(pos, e));
        lemma_header_block_agree(s1, s2, e + 2, k);
    }
}

/// Two inputs that agree on the bytes of a request parse to the same request.
proof fn lemma_request_agree(s1: Seq<u8>, s2: Seq<u8>, k: int)
    requires
        k <= s1.len(),
        k <= s2.len(),
        s1.take(k) == s2.take(k),
        parse_request_bytes(s1) matches Ok((_, n)) && n <= k,
    ensures
        parse_request_bytes(s2) == parse_request_bytes(s1),
{
    lemma_find_pair(s1, 13u8, 10u8, 0);
    let e = find_pair(s1, 13u8, 10u8, 0)->Some_0;
    lemma_header_block_end(s1, e + 2);
    lemma_find_pair_agree(s1, s2, 0, k);
    assert(s1.take(e) =~= s1.take(k).take(e));
    assert(s2.take(e) =~= s2.take(k).take(e));
    lemma_header_block_agree(s1, s2, e + 2, k);
    let (hs, head_end) = parse_header_block(s1, e + 2)->Ok_0;
    let n = body_length(hs);
    if n != 0 {
        assert(s1.subrange(head_end, head_end + n) =~= s1.take(k).subrange(head_end, head_end + n));
        assert(s2.subrange(head_end, head_end + n) =~= s2.take(k).subrange(head_end, head_end + n));
    }
}

/// A request takes exactly the bytes of its head and then as many as its last
/// `Content-Length` says; those bytes are its body, and what follows them on the
/// input changes nothing.
pub proof fn lemma_content_length_framing(s: Seq<u8>, t: Seq<u8>)
    requires
        parse_request_bytes(s) is Ok,
    ensures
        ({
            let (req, n) = parse_request_bytes(s)->Ok_0;
            let len = body_length(req.headers);
            &&& len <= n <= s.len()
            &&& req.body == if len > 0 {
                decoded(s.subrange(n - len, n))
            } else {
                None
            }
            &&& parse_request_bytes(s.take(n) + t) == parse_request_bytes(s)
        }),
{
    lemma_find_pair(s, 13u8, 10u8, 0);
    let e = find_pair(s, 13u8, 10u8, 0)->Some_0;
    lemma_header_block_end(s, e + 2);
    let n = parse_request_bytes(s)->Ok_0.1;
    let s2 = s.take(n) + t;
    assert(s2.take(n) =~= s.take(n));
    lemma_request_agree(s, s2, n);
}

/// The decoded header lines of `s` from `pos` on, up to the empty line.
pub open spec fn header_lines(s: Seq<u8>, pos: int) -> Seq<Seq<char>>
    decreases s.len() - pos,
    via header_lines_decreases
{
    match find_pair(s, 13u8, 10u8, pos) {
        None => seq![],
        Some(e) => if e == pos {
            seq![]
        } else {
            match decoded(s.subrange(pos, e)) {
                None => seq![],
                Some(line) => seq![line] + header_lines(s, e + 2),
            }
        },
    }
}

#[via_fn]
proof fn header_lines_decreases(s: Seq<u8>, pos: int) {
    if pos >= 0 {
        lemma_find_pair(s, 13u8, 10u8, pos);
    }
}

/// The decoded header lines of a request.
pub open spec fn request_header_lines(s: Seq<u8>) -> Seq<Seq<char>> {
    match find_pair(s, 13u8, 10u8, 0) {
        Some(e) => header_lines(s, e + 2),
        None => seq![],
    }
}

proof fn lemma_header_block_lines(s: Seq<u8>, pos: int)
    requires
        0 <= pos,
        parse_header_block(s, pos) is Ok,
    ensures
        ({
            let hs = parse_header_block(s, pos)->Ok_0.0;
            let lines = header_lines(s, pos);
            &&& hs.len() == lines.len()
            &&& forall|i: int|
                0 <= i < hs.len() ==> parse_header_text(#[trigger] lines[i]) == Ok::<_, HeaderErrorView>(hs[i])
        }),
    decreases s.len() - pos,
{
    lemma_find_pair(s, 13u8, 10u8, pos);
    let e = find_pair(s, 13u8, 10u8, pos)->Some_0;
    if e != pos {
        lemma_header_block_lines(s, e + 2);
        let hs = parse_header_block(s, pos)->Ok_0.0;
        let lines = header_lines(s, pos);
        let rest_hs = parse_header_block(s, e + 2)->Ok_0.0;
        let rest_lines = header_lines(s, e + 2);
        assert forall|i: int| 0 < i < hs.len() implies parse_header_text(#[trigger] lines[i])
            == Ok::<_, HeaderErrorView>(hs[i]) by {
            assert(lines[i] == rest_lines[i - 1]);
            assert(hs[i] == rest_hs[i - 1]);
        }
    }
}

/// Each header of a parsed request is what its line parses to, and writing a header
/// back gives its line exactly, where the line is canonical.
pub proof fn lemma_request_header_round_trip(s: Seq<u8>)
    requires
        parse_request_bytes(s) is Ok,
    ensures
        ({
            let hs = parse_request_bytes(s)->Ok_0.0.headers;
            let lines = request_header_lines(s);
            &&& hs.len() == lines.len()
            &&& forall|i: int|
                0 <= i < hs.len() ==> parse_header_text(#[trigger] lines[i]) == Ok::<_, HeaderErrorView>(hs[i])
            &&& forall|i: int|
                0 <= i < hs.len() && is_canonical_header_line(#[trigger] lines[i]) ==> header_text(hs[i])
                    == lines[i]
        }),
{
    let e = find_pair(s, 13u8, 10u8, 0)->Some_0;
    lemma_find_pair(s, 13u8, 10u8, 0);
    lemma_header_block_lines(s, e + 2);
    let hs = parse_request_bytes(s)->Ok_0.0.headers;
    let lines = request_header_lines(s);
    assert forall|i: int| 0 <= i < hs.len() && is_canonical_header_line(#[trigger] lines[i]) implies header_text(hs[i]) == lines[i] by {
        lemma_header_round_trip(lines[i]);
    }
}

} // verus!
