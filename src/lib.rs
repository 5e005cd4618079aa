pub mod args;
pub mod decimal;
pub mod http_header;
pub mod http_request;
pub mod http_request_handler;
pub mod http_response;
pub mod router;
pub mod text;
