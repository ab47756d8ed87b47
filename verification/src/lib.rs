//! Client-side data model and streaming decoder for a chat-completion API.
//!
//! The library covers the pure logic of the client: the model catalog, the
//! conversation role and message types, assembly of the outbound request
//! body, and the decoder that turns a line-delimited event stream into typed
//! response events. The HTTP transport itself lives outside the library and
//! hands status codes, lines and bodies in as plain values.

pub mod decode;
pub mod event;
pub mod json;
pub mod model;
pub mod request;
pub mod role;
pub mod strutil;

pub use decode::ApiError;
pub use decode::decode_body;
pub use decode::decode_frame;
pub use decode::decode_lines;
pub use decode::is_success_status;
pub use decode::line_event;
pub use decode::resolve_error;
pub use decode::split_lines;
pub use event::ContentBlock;
pub use event::FrameError;
pub use event::ResponseEvent;
pub use event::ResponseMessage;
pub use event::TextDelta;
pub use event::Usage;
pub use model::Model;
pub use request::Request;
pub use request::RequestMessage;
pub use request::request_headers;
pub use request::request_uri;
pub use role::Role;
pub use role::role_to_string;
pub use role::string_to_role;
