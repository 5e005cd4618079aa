use vstd::prelude::*;
use vstd::utf8::encode_utf8;

use crate::http_header::{ContentLength, ContentType, HeaderView, HttpHeader, UserAgent};
use crate::http_request::{last_user_agent, HttpRequest, RequestView};
use crate::http_response::{HttpResponse, HttpResponseCode, ResponseView};
use crate::router::{classify, HttpRequestType, RouteView};

verus! {

/// The number of bytes in the UTF-8 form of `s`.
pub open spec fn byte_len(s: Seq<char>) -> nat {
    encode_utf8(s).len()
}

/// A response with a code and nothing else.
pub open spec fn bare_response(code: HttpResponseCode) -> ResponseView {
    ResponseView { code, headers: None, body: None }
}

/// A 200 response that carries `body`, of the given media type, with its length.
pub open spec fn content_response(ct: ContentType, body: Seq<char>) -> ResponseView {
    ResponseView {
        code: HttpResponseCode::Okay,
        headers: Some(
            seq![HeaderView::ContentType(ct), HeaderView::ContentLength(byte_len(body) as usize)],
        ),
        body: Some(body),
    }
}

/// What the server does next for a request.
pub enum Action {
    /// Send this response.
    Respond(HttpResponse),
    /// Read the named file of the configured directory, then answer with
    /// `handle_get_files`.
    ReadFile(String),
    /// Write the body to the named file of the configured directory, then answer with
    /// `handle_post_files`.
    WriteFile(String, String),
}

pub enum ActionView {
    Respond(ResponseView),
    ReadFile(Seq<char>),
    WriteFile(Seq<char>, Seq<char>),
}

impl View for Action {
    type V = ActionView;

    open spec fn view(&self) -> ActionView {
        match self {
            Action::Respond(r) => ActionView::Respond(r@),
            Action::ReadFile(f) => ActionView::ReadFile(f@),
            Action::WriteFile(f, b) => ActionView::WriteFile(f@, b@),
        }
    }
}

/// A request that a route cannot serve.
#[derive(Clone, Copy, Debug, PartialEq, Eq, Structural)]
pub enum HandlerError {
    /// `GET /user-agent` without a `User-Agent` header.
    MissingUserAgent,
    /// `POST /files/...` without a body.
    MissingBody,
}

/// What the server does for a request.
pub open spec fn dispatch_spec(req: RequestView) -> Result<ActionView, HandlerError> {
    match classify(req.method, req.target) {
        None => Ok(ActionView::Respond(bare_response(HttpResponseCode::NotFound))),
        Some(RouteView::GetRoot) => Ok(ActionView::Respond(bare_response(HttpResponseCode::Okay))),
        Some(RouteView::GetEcho(x)) => Ok(
            ActionView::Respond(content_response(ContentType::TextPlain, x)),
        ),
        Some(RouteView::GetUserAgent) => match last_user_agent(req.headers) {
            Some(ua) => Ok(ActionView::Respond(content_response(ContentType::TextPlain, ua))),
            None => Err(HandlerError::MissingUserAgent),
        },
        Some(RouteView::GetFile(f)) => Ok(ActionView::ReadFile(f)),
        Some(RouteView::PostFile(f)) => match req.body {
            Some(b) => Ok(ActionView::WriteFile(f, b)),
            None => Err(HandlerError::MissingBody),
        },
    }
}

/// A 200 response that carries `body` with the given media type and its length.
fn content(content_type: ContentType, body: String) -> (r: HttpResponse)
    ensures
        r@ == content_response(content_type, body@),
{
    let content_length = body.as_str().len();
    let headers = vec![
        HttpHeader::ContentType(content_type),
        HttpHeader::ContentLength(ContentLength::new(content_length)),
    ];
    let r = HttpResponse::new(HttpResponseCode::Okay, Some(headers), Some(body));
    assert(r@.headers->Some_0 =~= content_response(content_type, body@).headers->Some_0);
    r
}

pub fn handle_get_root() -> (r: HttpResponse)
    ensures
        r@ == bare_response(HttpResponseCode::Okay),
{
    HttpResponse::new(HttpResponseCode::Okay, None, None)
}

/// Echoes `echo` back as plain text.
pub fn handle_get_echo(echo: String) -> (r: HttpResponse)
    ensures
        r@ == content_response(ContentType::TextPlain, echo@),
{
    content(ContentType::TextPlain, echo)
}

pub fn handle_not_found() -> (r: HttpResponse)
    ensures
        r@ == bare_response(HttpResponseCode::NotFound),
{
    HttpResponse::new(HttpResponseCode::NotFound, None, None)
}

/// Echoes the user agent back as plain text.
pub fn handle_get_user_agent(user_agent: &UserAgent) -> (r: HttpResponse)
    ensures
        r@ == content_response(ContentType::TextPlain, user_agent@),
{
    let user_agent_value = user_agent.value().to_owned();
    content(ContentType::TextPlain, user_agent_value)
}

/// Answers a file request with what was read of the file: its contents as an octet
/// stream, or 404 where there is no such file.
pub fn handle_get_files(file_contents: Option<String>) -> (r: HttpResponse)
    ensures
        r@ == match file_contents {
            Some(c) => content_response(ContentType::ApplicationOctetStream, c@),
            None => bare_response(HttpResponseCode::NotFound),
        },
{
    match file_contents {
        Some(c) => content(ContentType::ApplicationOctetStream, c),
        None => HttpResponse::new(HttpResponseCode::NotFound, None, None),
    }
}

/// Answers a file upload once the file is written.
pub fn handle_post_files() -> (r: HttpResponse)
    ensures
        r@ == bare_response(HttpResponseCode::Created),
{
    HttpResponse::new(HttpResponseCode::Created, None, None)
}

/// Routes a request and decides what to do for it.
pub fn dispatch(http_request: &HttpRequest) -> (r: Result<Action, HandlerError>)
    ensures
        match r {
            Ok(a) => dispatch_spec(http_request@) == Ok::<_, HandlerError>(a@),
            Err(e) => dispatch_spec(http_request@) == Err::<ActionView, _>(e),
        },
{
    let request_type = HttpRequestType::try_new(
        http_request.http_method(),
        http_request.request_target(),
    );
    match request_type {
        None => Ok(Action::Respond(handle_not_found())),
        Some(HttpRequestType::GetRoot) => Ok(Action::Respond(handle_get_root())),
        Some(HttpRequestType::GetEcho(echo)) => Ok(Action::Respond(handle_get_echo(echo))),
        Some(HttpRequestType::GetUserAgent) => match http_request.user_agent() {
            Some(user_agent) => Ok(Action::Respond(handle_get_user_agent(user_agent))),
            None => Err(HandlerError::MissingUserAgent),
        },
        Some(HttpRequestType::GetFile(file)) => Ok(Action::ReadFile(file)),
        Some(HttpRequestType::PostFile(file)) => match http_request.body() {
            Some(body) => Ok(Action::WriteFile(file, body.clone())),
            None => Err(HandlerError::MissingBody),
        },
    }
}

} // verus!
