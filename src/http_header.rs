use vstd::prelude::*;

use crate::decimal::{
    decimal_text, digit_value, is_canonical_decimal, is_digit, lemma_canonical_decimal,
    parse_decimal, parse_usize, render_decimal, unsigned_digits,
};
use crate::text::{find_char_pair, find_pair, lemma_find_pair, str_eq, substring};

verus! {

/// The media types that a `Content-Type` header may name.
#[derive(Clone, Copy, Debug, PartialEq, Eq, Structural)]
pub enum ContentType {
    TextPlain,
    ApplicationOctetStream,
}

/// The value of a `Content-Length` header: a byte count.
#[derive(Clone, Copy, Debug, PartialEq, Eq, Structural)]
pub struct ContentLength(usize);

/// The value of a `User-Agent` header, verbatim.
#[derive(Debug)]
pub struct UserAgent(String);

/// The value of a `Host` header, verbatim.
#[derive(Debug)]
pub struct Host(String);

/// The value of an `Accept` header, verbatim.
#[derive(Debug)]
pub struct Accept(String);

/// One header of the recognized set.
#[derive(Debug)]
pub enum HttpHeader {
    ContentType(ContentType),
    ContentLength(ContentLength),
    UserAgent(UserAgent),
    Host(Host),
    Accept(Accept),
}

/// A `Content-Type` value outside the recognized media types.
#[derive(Debug)]
pub struct ContentTypeError {
    content_type: String,
}

/// A `Content-Length` value that is not an unsigned integer.
#[derive(Debug)]
pub struct ContentLengthError {
    content_length: String,
}

/// Why a header line was refused.
#[derive(Debug)]
pub enum HttpHeaderError {
    /// No `": "` in the line, or a name outside the recognized set; holds the line.
    ParseString(String),
    InvalidContentType(ContentTypeError),
    InvalidContentLength(ContentLengthError),
}

/// The mathematical value of a header.
pub enum HeaderView {
    ContentType(ContentType),
    ContentLength(usize),
    UserAgent(Seq<char>),
    Host(Seq<char>),
    Accept(Seq<char>),
}

/// The mathematical value of a header error; each variant holds the offending text.
pub enum HeaderErrorView {
    ParseString(Seq<char>),
    InvalidContentType(Seq<char>),
    InvalidContentLength(Seq<char>),
}

impl View for ContentLength {
    type V = usize;

    closed spec fn view(&self) -> usize {
        self.0
    }
}

impl View for UserAgent {
    type V = Seq<char>;

    closed spec fn view(&self) -> Seq<char> {
        self.0@
    }
}

impl View for Host {
    type V = Seq<char>;

    closed spec fn view(&self) -> Seq<char> {
        self.0@
    }
}

impl View for Accept {
    type V = Seq<char>;

    closed spec fn view(&self) -> Seq<char> {
        self.0@
    }
}

impl View for ContentTypeError {
    type V = Seq<char>;

    closed spec fn view(&self) -> Seq<char> {
        self.content_type@
    }
}

impl View for ContentLengthError {
    type V = Seq<char>;

    closed spec fn view(&self) -> Seq<char> {
        self.content_length@
    }
}

impl View for HttpHeader {
    type V = HeaderView;

    open spec fn view(&self) -> HeaderView {
        match self {
            HttpHeader::ContentType(ct) => HeaderView::ContentType(*ct),
            HttpHeader::ContentLength(cl) => HeaderView::ContentLength(cl@),
            HttpHeader::UserAgent(ua) => HeaderView::UserAgent(ua@),
            HttpHeader::Host(h) => HeaderView::Host(h@),
            HttpHeader::Accept(a) => HeaderView::Accept(a@),
        }
    }
}

impl View for HttpHeaderError {
    type V = HeaderErrorView;

    open spec fn view(&self) -> HeaderErrorView {
        match self {
            HttpHeaderError::ParseString(s) => HeaderErrorView::ParseString(s@),
            HttpHeaderError::InvalidContentType(e) => HeaderErrorView::InvalidContentType(e@),
            HttpHeaderError::InvalidContentLength(e) => HeaderErrorView::InvalidContentLength(e@),
        }
    }
}

/// A result read through the views of both sides.
pub open spec fn result_view<T: View, E: View>(r: Result<T, E>) -> Result<T::V, E::V> {
    match r {
        Ok(t) => Ok(t@),
        Err(e) => Err(e@),
    }
}

pub open spec fn content_type_text(ct: ContentType) -> Seq<char> {
    match ct {
        ContentType::TextPlain => "text/plain"@,
        ContentType::ApplicationOctetStream => "application/octet-stream"@,
    }
}

pub open spec fn content_type_of(s: Seq<char>) -> Option<ContentType> {
    if s == "text/plain"@ {
        Some(ContentType::TextPlain)
    } else if s == "application/octet-stream"@ {
        Some(ContentType::ApplicationOctetStream)
    } else {
        None
    }
}

/// The text form of a header, `<Name>: <value>`, without a line terminator.
pub open spec fn header_text(h: HeaderView) -> Seq<char> {
    match h {
        HeaderView::ContentType(ct) => "Content-Type: "@ + content_type_text(ct),
        HeaderView::ContentLength(n) => "Content-Length: "@ + decimal_text(n as nat),
        HeaderView::UserAgent(v) => "User-Agent: "@ + v,
        HeaderView::Host(v) => "Host: "@ + v,
        HeaderView::Accept(v) => "Accept: "@ + v,
    }
}

/// Where a header line splits into name and value: its first `": "`.
pub open spec fn header_separator(line: Seq<char>) -> Option<int> {
    find_pair(line, ':', ' ', 0)
}

/// What a header line parses to.
pub open spec fn parse_header_text(line: Seq<char>) -> Result<HeaderView, HeaderErrorView> {
    match header_separator(line) {
        None => Err(HeaderErrorView::ParseString(line)),
        Some(i) => {
            let name = line.take(i);
            let value = line.skip(i + 2);
            if name == "Host"@ {
                Ok(HeaderView::Host(value))
            } else if name == "User-Agent"@ {
                Ok(HeaderView::UserAgent(value))
            } else if name == "Accept"@ {
                Ok(HeaderView::Accept(value))
            } else if name == "Content-Type"@ {
                match content_type_of(value) {
                    Some(ct) => Ok(HeaderView::ContentType(ct)),
                    None => Err(HeaderErrorView::InvalidContentType(value)),
                }
            } else if name == "Content-Length"@ {
                match parse_decimal(value) {
                    Some(n) => Ok(HeaderView::ContentLength(n)),
                    None => Err(HeaderErrorView::InvalidContentLength(value)),
                }
            } else {
                Err(HeaderErrorView::ParseString(line))
            }
        },
    }
}

/// A header line whose text is the one its header writes back: a `Content-Length`
/// value in it has no sign and no leading zero.
pub open spec fn is_canonical_header_line(line: Seq<char>) -> bool {
    match header_separator(line) {
        Some(i) => line.take(i) == "Content-Length"@ ==> is_canonical_decimal(line.skip(i + 2)),
        None => true,
    }
}

/// A header line that parses, and is canonical, is the text of the header it parses to.
pub proof fn lemma_header_round_trip(line: Seq<char>)
    requires
        parse_header_text(line) is Ok,
        is_canonical_header_line(line),
    ensures
        header_text(parse_header_text(line)->Ok_0) == line,
{
    lemma_find_pair(line, ':', ' ', 0);
    let i = header_separator(line)->Some_0;
    let name = line.take(i);
    let value = line.skip(i + 2);
    assert(line =~= name + ": "@ + value) by {
        reveal_strlit(": ");
    }
    reveal_strlit("Host");
    reveal_strlit("Host: ");
    reveal_strlit("User-Agent");
    reveal_strlit("User-Agent: ");
    reveal_strlit("Accept");
    reveal_strlit("Accept: ");
    reveal_strlit("Content-Type");
    reveal_strlit("Content-Type: ");
    reveal_strlit("Content-Length");
    reveal_strlit("Content-Length: ");
    reveal_strlit(": ");
    if name == "Host"@ {
        assert("Host: "@ =~= "Host"@ + ": "@);
    } else if name == "User-Agent"@ {
        assert("User-Agent: "@ =~= "User-Agent"@ + ": "@);
    } else if name == "Accept"@ {
        assert("Accept: "@ =~= "Accept"@ + ": "@);
    } else if name == "Content-Type"@ {
        assert("Content-Type: "@ =~= "Content-Type"@ + ": "@);
    } else {
        assert(name == "Content-Length"@);
        assert("Content-Length: "@ =~= "Content-Length"@ + ": "@);
        assert(is_canonical_decimal(value));
        assert(is_digit(value[0]));
        assert(unsigned_digits(value) == value);
        lemma_canonical_decimal(value);
    }
}

impl ContentType {
    /// Parses a `Content-Type` value: exactly `text/plain` or `application/octet-stream`.
    pub fn parse(value: &str) -> (r: Result<ContentType, ContentTypeError>)
        ensures
            match r {
                Ok(ct) => content_type_of(value@) == Some(ct),
                Err(e) => content_type_of(value@) is None && e@ == value@,
            },
    {
        if str_eq(value, "text/plain") {
            Ok(ContentType::TextPlain)
        } else if str_eq(value, "application/octet-stream") {
            Ok(ContentType::ApplicationOctetStream)
        } else {
            Err(ContentTypeError::new(value))
        }
    }

    /// The media type's text.
    pub fn to_string(&self) -> (r: String)
        ensures
            r@ == content_type_text(*self),
    {
        match self {
            ContentType::TextPlain => "text/plain".to_owned(),
            ContentType::ApplicationOctetStream => "application/octet-stream".to_owned(),
        }
    }
}

impl ContentLength {
    pub fn new(content_length: usize) -> (r: ContentLength)
        ensures
            r@ == content_length,
    {
        ContentLength(content_length)
    }

    pub fn value(&self) -> (r: usize)
        ensures
            r == self@,
    {
        self.0
    }

    /// Parses a `Content-Length` value as an unsigned integer.
    pub fn parse(value: &str) -> (r: Result<ContentLength, ContentLengthError>)
        ensures
            match r {
                Ok(cl) => parse_decimal(value@) == Some(cl@),
                Err(e) => parse_decimal(value@) is None && e@ == value@,
            },
    {
        match parse_usize(value) {
            Some(n) => Ok(ContentLength::new(n)),
            None => Err(ContentLengthError::new(value)),
        }
    }

    /// The length in decimal.
    pub fn to_string(&self) -> (r: String)
        ensures
            r@ == decimal_text(self@ as nat),
    {
        render_decimal(self.0)
    }
}

impl UserAgent {
    pub fn new(user_agent: String) -> (r: UserAgent)
        ensures
            r@ == user_agent@,
    {
        UserAgent(user_agent)
    }

    pub fn value(&self) -> (r: &str)
        ensures
            r@ == self@,
    {
        self.0.as_str()
    }
}

impl Host {
    pub fn new(host: String) -> (r: Host)
        ensures
            r@ == host@,
    {
        Host(host)
    }
}

impl Accept {
    pub fn new(accept: String) -> (r: Accept)
        ensures
            r@ == accept@,
    {
        Accept(accept)
    }
}

impl ContentTypeError {
    pub fn new(content_type: &str) -> (r: ContentTypeError)
        ensures
            r@ == content_type@,
    {
        ContentTypeError { content_type: content_type.to_owned() }
    }

    /// A message that names the refused value.
    pub fn to_string(&self) -> (r: String)
        ensures
            r@ == "Invalid content type: "@ + self@,
    {
        let mut s = "Invalid content type: ".to_owned();
        s.append(self.content_type.as_str());
        s
    }
}

impl ContentLengthError {
    pub fn new(content_length: &str) -> (r: ContentLengthError)
        ensures
            r@ == content_length@,
    {
        ContentLengthError { content_length: content_length.to_owned() }
    }

    /// A message that names the refused value.
    pub fn to_string(&self) -> (r: String)
        ensures
            r@ == "Invalid content length: "@ + self@,
    {
        let mut s = "Invalid content length: ".to_owned();
        s.append(self.content_length.as_str());
        s
    }
}

/// The message of a header error.
pub open spec fn header_error_text(e: HeaderErrorView) -> Seq<char> {
    match e {
        HeaderErrorView::ParseString(line) => "Failed to parse header from string: "@ + line,
        HeaderErrorView::InvalidContentType(v) => "Invalid content type: "@ + v,
        HeaderErrorView::InvalidContentLength(v) => "Invalid content length: "@ + v,
    }
}

impl HttpHeaderError {
    /// A message that names what was refused.
    pub fn to_string(&self) -> (r: String)
        ensures
            r@ == header_error_text(self@),
    {
        match self {
            HttpHeaderError::ParseString(line) => {
                let mut s = "Failed to parse header from string: ".to_owned();
                s.append(line.as_str());
                s
            },
            HttpHeaderError::InvalidContentType(e) => e.to_string(),
            HttpHeaderError::InvalidContentLength(e) => e.to_string(),
        }
    }
}

impl HttpHeader {
    /// Parses one header line, its terminator already removed.
    pub fn parse(line: &str) -> (r: Result<HttpHeader, HttpHeaderError>)
        ensures
            result_view(r) == parse_header_text(line@),
    {
        let sep = find_char_pair(line, ':', ' ', 0);
        match sep {
            None => Err(HttpHeaderError::ParseString(line.to_owned())),
            Some(i) => {
                proof {
                    lemma_find_pair(line@, ':', ' ', 0);
                }
                let n = line.unicode_len();
                let name = substring(line, 0, i);
                let value = substring(line, i + 2, n);
                assert(name@ =~= line@.take(i as int));
                assert(value@ =~= line@.skip(i + 2));
                if str_eq(name.as_str(), "Host") {
                    Ok(HttpHeader::Host(Host::new(value)))
                } else if str_eq(name.as_str(), "User-Agent") {
                    Ok(HttpHeader::UserAgent(UserAgent::new(value)))
                } else if str_eq(name.as_str(), "Accept") {
                    Ok(HttpHeader::Accept(Accept::new(value)))
                } else if str_eq(name.as_str(), "Content-Type") {
                    match ContentType::parse(value.as_str()) {
                        Ok(ct) => Ok(HttpHeader::ContentType(ct)),
                        Err(e) => Err(HttpHeaderError::InvalidContentType(e)),
                    }
                } else if str_eq(name.as_str(), "Content-Length") {
                    match ContentLength::parse(value.as_str()) {
                        Ok(cl) => Ok(HttpHeader::ContentLength(cl)),
                        Err(e) => Err(HttpHeaderError::InvalidContentLength(e)),
                    }
                } else {
                    Err(HttpHeaderError::ParseString(line.to_owned()))
                }
            },
        }
    }

    /// The header's text form, `<Name>: <value>`, without a line terminator.
    pub fn to_string(&self) -> (r: String)
        ensures
            r@ == header_text(self@),
    {
        match self {
            HttpHeader::ContentType(ct) => {
                let mut s = "Content-Type: ".to_owned();
                let v = ct.to_string();
                s.append(v.as_str());
                s
            },
            HttpHeader::ContentLength(cl) => {
                let mut s = "Content-Length: ".to_owned();
                let v = cl.to_string();
                s.append(v.as_str());
                s
            },
            HttpHeader::UserAgent(ua) => {
                let mut s = "User-Agent: ".to_owned();
                s.append(ua.0.as_str());
                s
            },
            HttpHeader::Host(h) => {
                let mut s = "Host: ".to_owned();
                s.append(h.0.as_str());
                s
            },
            HttpHeader::Accept(a) => {
                let mut s = "Accept: ".to_owned();
                s.append(a.0.as_str());
                s
            },
        }
    }
}

} // verus!
