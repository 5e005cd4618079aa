use vstd::prelude::*;

use crate::http_header::{header_text, HeaderView, HttpHeader};

verus! {

/// The status codes that the server sends.
#[derive(Clone, Copy, Debug, PartialEq, Eq, Structural)]
pub enum HttpResponseCode {
    Okay,
    NotFound,
    Created,
}

/// A response: status, optional headers in the order given, optional body.
pub struct HttpResponse {
    http_response_code: HttpResponseCode,
    http_headers: Option<Vec<HttpHeader>>,
    http_response_body: Option<String>,
}

/// The mathematical value of a response.
pub struct ResponseView {
    pub code: HttpResponseCode,
    pub headers: Option<Seq<HeaderView>>,
    pub body: Option<Seq<char>>,
}

impl View for HttpResponse {
    type V = ResponseView;

    closed spec fn view(&self) -> ResponseView {
        ResponseView {
            code: self.http_response_code,
            headers: match self.http_headers {
                Some(hs) => Some(hs@.map_values(|h: HttpHeader| h@)),
                None => None,
            },
            body: match self.http_response_body {
                Some(b) => Some(b@),
                None => None,
            },
        }
    }
}

/// The numeric status code.
pub open spec fn status_number(c: HttpResponseCode) -> u16 {
    match c {
        HttpResponseCode::Okay => 200,
        HttpResponseCode::NotFound => 404,
        HttpResponseCode::Created => 201,
    }
}

/// The code and reason phrase, as the status line shows them.
pub open spec fn status_text(c: HttpResponseCode) -> Seq<char> {
    match c {
        HttpResponseCode::Okay => "200 OK"@,
        HttpResponseCode::NotFound => "404 Not Found"@,
        HttpResponseCode::Created => "201 Created"@,
    }
}

/// Each header's text followed by CR LF, in order.
pub open spec fn headers_text(hs: Seq<HeaderView>) -> Seq<char>
    decreases hs.len(),
{
    if hs.len() == 0 {
        seq![]
    } else {
        headers_text(hs.drop_last()) + header_text(hs.last()) + "\r\n"@
    }
}

pub open spec fn status_line_text(c: HttpResponseCode) -> Seq<char> {
    "HTTP/1.1 "@ + status_text(c)
}

/// The wire form of a response: status line, headers, an empty line, then the body
/// verbatim. Nothing is added that the response does not hold.
pub open spec fn response_text(r: ResponseView) -> Seq<char> {
    status_line_text(r.code) + "\r\n"@ + headers_text(
        match r.headers {
            Some(hs) => hs,
            None => seq![],
        },
    ) + "\r\n"@ + match r.body {
        Some(b) => b,
        None => seq![],
    }
}

impl HttpResponseCode {
    pub fn number(&self) -> (r: u16)
        ensures
            r == status_number(*self),
    {
        match self {
            HttpResponseCode::Okay => 200,
            HttpResponseCode::NotFound => 404,
            HttpResponseCode::Created => 201,
        }
    }

    /// The code and reason phrase.
    pub fn to_string(&self) -> (r: String)
        ensures
            r@ == status_text(*self),
    {
        match self {
            HttpResponseCode::Okay => "200 OK".to_owned(),
            HttpResponseCode::NotFound => "404 Not Found".to_owned(),
            HttpResponseCode::Created => "201 Created".to_owned(),
        }
    }
}

impl HttpResponse {
    pub fn new(
        http_response_code: HttpResponseCode,
        http_headers: Option<Vec<HttpHeader>>,
        http_response_body: Option<String>,
    ) -> (r: HttpResponse)
        ensures
            r@.code == http_response_code,
            r@.headers == match http_headers {
                Some(hs) => Some(hs@.map_values(|h: HttpHeader| h@)),
                None => None,
            },
            r@.body == match http_response_body {
                Some(b) => Some(b@),
                None => None::<Seq<char>>,
            },
    {
        HttpResponse { http_response_code, http_headers, http_response_body }
    }

    pub fn http_response_code(&self) -> (r: HttpResponseCode)
        ensures
            r == self@.code,
    {
        self.http_response_code
    }

    pub fn http_response_body(&self) -> (r: Option<&String>)
        ensures
            match r {
                Some(b) => self@.body == Some(b@),
                None => self@.body is None,
            },
    {
        self.http_response_body.as_ref()
    }

    /// The number of headers; none when the response has no header list.
    pub fn header_count(&self) -> (r: usize)
        ensures
            r == match self@.headers {
                Some(hs) => hs.len(),
                None => 0,
            },
    {
        match &self.http_headers {
            Some(hs) => hs.len(),
            None => 0,
        }
    }

    /// The text of the header at `i`.
    pub fn header_text_at(&self, i: usize) -> (r: String)
        requires
            self@.headers matches Some(hs) && i < hs.len(),
        ensures
            r@ == header_text(self@.headers->Some_0[i as int]),
    {
        match &self.http_headers {
            Some(hs) => hs[i].to_string(),
            None => String::new(),
        }
    }

    fn status_line(&self) -> (r: String)
        ensures
            r@ == status_line_text(self@.code),
    {
        let mut s = "HTTP/1.1 ".to_owned();
        let code = self.http_response_code.to_string();
        s.append(code.as_str());
        s
    }

    fn headers(&self) -> (r: String)
        ensures
            r@ == headers_text(
                match self@.headers {
                    Some(hs) => hs,
                    None => seq![],
                },
            ),
    {
        match &self.http_headers {
            Some(http_headers) => {
                let ghost hv = http_headers@.map_values(|h: HttpHeader| h@);
                let mut headers = String::new();
                let mut i: usize = 0;
                while i < http_headers.len()
                    invariant
                        i <= http_headers@.len(),
                        hv == http_headers@.map_values(|h: HttpHeader| h@),
                        headers@ == headers_text(hv.take(i as int)),
                    decreases http_headers@.len() - i,
                {
                    assert(hv.take(i + 1).drop_last() =~= hv.take(i as int));
                    let text = http_headers[i].to_string();
                    headers.append(text.as_str());
                    headers.append("\r\n");
                    i = i + 1;
                }
                assert(hv.take(i as int) =~= hv);
                headers
            },
            None => {
                let r = String::new();
                assert(r@ =~= seq![]);
                r
            },
        }
    }

    fn response_body(&self) -> (r: String)
        ensures
            r@ == match self@.body {
                Some(b) => b,
                None => seq![],
            },
    {
        match &self.http_response_body {
            Some(b) => b.clone(),
            None => String::new(),
        }
    }

    /// The response in wire form.
    pub fn to_string(&self) -> (r: String)
        ensures
            r@ == response_text(self@),
    {
        let mut s = self.status_line();
        s.append("\r\n");
        let headers = self.headers();
        s.append(headers.as_str());
        s.append("\r\n");
        let body = self.response_body();
        s.append(body.as_str());
        s
    }
}

} // verus!
