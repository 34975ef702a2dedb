//! The key as a named HTTP header: its name, how a header framework's raw
//! field values are read into a key, and the value that is written out.

use vstd::prelude::*;
use vstd::utf8::{decode_utf8, valid_utf8};

use crate::key::{key_of_text, outcome, WebSocketKey};
use crate::result::{Fault, WebSocketError, WebSocketResult};

verus! {

/// What `hyper` reports when it cannot read a header.
#[verifier::external_type_specification]
#[verifier::external_body]
pub struct ExHyperError(hyper::Error);

/// Calls `hyper::header::parsing::from_one_raw_str` for a `String`. hyper
/// turns down anything but one segment that is not empty, then reads the
/// segment as UTF-8; making a `String` of the text cannot fail. The contract
/// claims that the call succeeds exactly on one segment that is not empty and
/// is well-formed UTF-8, and then returns the text of that segment.
#[verifier::external_body]
fn one_raw_string(raw: &[Vec<u8>]) -> (text: Result<String, hyper::Error>)
    ensures
        text is Ok <==> (raw@.len() == 1 && raw@[0]@.len() > 0 && valid_utf8(raw@[0]@)),
        text matches Ok(s) ==> s@ == decode_utf8(raw@[0]@),
{
    hyper::header::parsing::from_one_raw_str(raw)
}

/// What the raw values of a header give as a key: there must be one value, it
/// must be UTF-8, and its text is then read as a key's.
pub open spec fn key_of_header(raw: Seq<Seq<u8>>) -> Result<Seq<u8>, Fault> {
    if raw.len() == 1 && valid_utf8(raw[0]) {
        key_of_text(decode_utf8(raw[0]))
    } else {
        Err(Fault::HeaderMalformed)
    }
}

impl WebSocketKey {
    /// The header's name in its canonical spelling.
    pub fn header_name() -> (name: &'static str)
        ensures
            name@ == "Sec-WebSocket-Key"@,
    {
        "Sec-WebSocket-Key"
    }

    /// Reads the key from the raw values that a header framework found for
    /// the header, one for each time the header occurred.
    pub fn parse_header(raw: &[Vec<u8>]) -> (result: WebSocketResult<WebSocketKey>)
        ensures
            outcome(result) == key_of_header(raw.deep_view()),
    {
        proof {
            if raw@.len() == 1 {
                assert(raw.deep_view()[0] =~= raw@[0]@);
            }
        }
        if raw.len() == 1 && raw[0].len() == 0 {
            // An empty value is text as well: hyper would turn it down
            // unread, so it goes to the text parser from here.
            proof {
                reveal_strlit("");
                assert(""@ =~= decode_utf8(raw@[0]@));
            }
            return Self::from_str("");
        }
        match one_raw_string(raw) {
            Ok(text) => Self::from_str(text.as_str()),
            Err(_) => Err(WebSocketError::HeaderMalformed),
        }
    }

    /// The value that is written behind the header's name: the wire form of
    /// the key, with nothing before or after it.
    pub fn fmt_header(&self) -> (value: String)
        ensures
            value@ == self.text(),
    {
        self.serialize()
    }
}

} // verus!
