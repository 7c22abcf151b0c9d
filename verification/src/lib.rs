//! A minimal embeddable HTTP/1.1 protocol library.
//!
//! The crate covers the request/response protocol layer of a tiny web
//! server: parsing a raw text buffer into a structured [`request::Request`],
//! matching a request against registered [`routing::Route`] patterns
//! (including `:name` parameter and `*` wildcard segments), and serializing
//! a [`response::Response`] into a complete HTTP/1.1 reply.  Reading from
//! and writing to a transport is left to the embedding application.
#![verifier::loop_isolation(false)]

pub mod dict;
pub mod method;
pub mod request;
pub mod response;
pub mod routing;
pub mod strutil;

pub use dict::Dict;
pub use method::HttpMethod;
pub use method::string_to_http_method;
pub use request::FlorenceRequest;
pub use request::ParseError;
pub use request::Request;
pub use request::StartLine;
pub use request::parse_request;
pub use request::parse_start_line;
pub use response::FlorenceResponse;
pub use response::Response;
pub use response::serialize_response;
pub use routing::Dispatch;
pub use routing::Florence;
pub use routing::Route;
pub use routing::RouteMatch;
pub use routing::Router;
pub use routing::match_route;
