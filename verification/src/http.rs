//! HTTP/1.x messages: reading a request, writing a response.

pub mod headers;
pub mod request;
pub mod response;
