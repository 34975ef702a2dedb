//! A typed `Sec-WebSocket-Key` header (RFC 6455, section 4.1): a nonce of
//! sixteen octets that a client sends, in Base64, when it opens a WebSocket
//! connection.

pub mod codec;
pub mod header;
pub mod key;
pub mod result;

pub use key::WebSocketKey;
pub use result::{WebSocketError, WebSocketResult};
