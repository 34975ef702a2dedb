//! The errors that handling a key can give.

use vstd::prelude::*;

verus! {

/// Why a header value was turned down.
#[derive(Debug, Clone, Copy, PartialEq, Eq)]
pub enum WebSocketError {
    /// The value is a well-formed header field, but no key: the reason says
    /// which rule it breaks.
    ProtocolError(&'static str),
    /// The header framework could not hand over one field value as text.
    HeaderMalformed,
}

/// The result of reading a header value.
pub type WebSocketResult<T> = Result<T, WebSocketError>;

/// An error as contracts speak of it: the kind, and the reason as text.
pub enum Fault {
    ProtocolError(Seq<char>),
    HeaderMalformed,
}

impl View for WebSocketError {
    type V = Fault;

    open spec fn view(&self) -> Fault {
        match self {
            WebSocketError::ProtocolError(reason) => Fault::ProtocolError(reason@),
            WebSocketError::HeaderMalformed => Fault::HeaderMalformed,
        }
    }
}

} // verus!
