//! The key itself: sixteen octets, made at random or read from Base64 text,
//! and written back as Base64.

use vstd::prelude::*;
use vstd::std_specs::cmp::PartialEqSpecImpl;
use vstd::utf8::is_ascii_chars;

use crate::codec::{
    decode_standard, encode_standard, is_symbol, lemma_decoding_of_encoding,
    lemma_encoding_chars, lemma_encoding_len, pad, standard_decoding, standard_encoding,
};
use crate::result::{Fault, WebSocketError, WebSocketResult};

verus! {

/// The number of octets in a key.
pub const KEY_LEN: usize = 16;

/// Represents a Sec-WebSocket-Key header.
#[derive(Clone, Copy)]
pub struct WebSocketKey(pub [u8; 16]);

impl View for WebSocketKey {
    type V = Seq<u8>;

    open spec fn view(&self) -> Seq<u8> {
        self.0@
    }
}

/// The reason given for a text that decodes to more or fewer than sixteen
/// octets.
pub open spec fn wrong_length_reason() -> Seq<char> {
    "Sec-WebSocket-Key must be 16 bytes"@
}

/// The reason given for a text that is no Base64.
pub open spec fn invalid_reason() -> Seq<char> {
    "Invalid Sec-WebSocket-Key"@
}

/// What a byte string gives as a key: itself if it has sixteen octets.
pub open spec fn key_of_bytes(bytes: Seq<u8>) -> Result<Seq<u8>, Fault> {
    if bytes.len() == KEY_LEN {
        Ok(bytes)
    } else {
        Err(Fault::ProtocolError(wrong_length_reason()))
    }
}

/// What a text gives as a key.
pub open spec fn key_of_text(text: Seq<char>) -> Result<Seq<u8>, Fault> {
    match standard_decoding(text) {
        Some(bytes) => key_of_bytes(bytes),
        None => Err(Fault::ProtocolError(invalid_reason())),
    }
}

/// A result as contracts speak of it: the key's octets, or the fault.
pub open spec fn outcome(result: WebSocketResult<WebSocketKey>) -> Result<Seq<u8>, Fault> {
    match result {
        Ok(key) => Ok(key@),
        Err(error) => Err(error@),
    }
}

impl WebSocketKey {
    /// The wire form of the key: its octets in padded Base64.
    pub open spec fn text(self) -> Seq<char> {
        standard_encoding(self@)
    }

    /// Generate a new, random WebSocketKey
    pub fn new() -> (key: WebSocketKey)
        ensures
            key@.len() == KEY_LEN,
    {
        WebSocketKey(random_octets())
    }

    /// Takes a key from decoded octets: there must be sixteen.
    pub fn from_slice(bytes: &[u8]) -> (result: WebSocketResult<WebSocketKey>)
        ensures
            outcome(result) == key_of_bytes(bytes@),
    {
        if bytes.len() != KEY_LEN {
            return Err(WebSocketError::ProtocolError("Sec-WebSocket-Key must be 16 bytes"));
        }
        let mut array = [0u8; 16];
        let mut i: usize = 0;
        while i < KEY_LEN
            invariant
                i <= KEY_LEN,
                bytes@.len() == KEY_LEN,
                forall|j: int| 0 <= j < i ==> array@[j] == bytes@[j],
            decreases KEY_LEN - i,
        {
            array[i] = bytes[i];
            i += 1;
        }
        assert(array@ =~= bytes@);
        Ok(WebSocketKey(array))
    }

    /// Reads a key from its Base64 text. Nothing is trimmed.
    pub fn from_str(key: &str) -> (result: WebSocketResult<WebSocketKey>)
        ensures
            outcome(result) == key_of_text(key@),
    {
        match decode_standard(key) {
            Ok(vec) => {
                proof {
                    lemma_decoding_of_encoding(vec@);
                }
                Self::from_slice(vec.as_slice())
            },
            Err(_) => Err(WebSocketError::ProtocolError("Invalid Sec-WebSocket-Key")),
        }
    }

    /// Return the Base64 encoding of this WebSocketKey
    pub fn serialize(&self) -> (text: String)
        ensures
            text@ == self.text(),
            is_key_text(text@),
            is_ascii_chars(text@),
    {
        proof {
            lemma_text_is_canonical(*self);
        }
        encode_standard(&self.0)
    }

    /// The form for logs, `WebSocketKey(..)` round the Base64 text. It is not
    /// the wire form.
    pub fn to_debug_string(&self) -> (text: String)
        ensures
            text@ == "WebSocketKey("@ + self.text() + ")"@,
    {
        String::from_str("WebSocketKey(").concat(self.serialize().as_str()).concat(")")
    }
}

/// Calls `rand::random`, which draws a value from the thread's generator, a
/// generator that the system seeds. Nothing is claimed of the octets drawn.
#[verifier::external_body]
fn random_octets() -> (octets: [u8; 16]) {
    rand::random()
}

/// The shape of a key's wire form: twenty-two characters of the alphabet,
/// then two of padding.
pub open spec fn is_key_text(text: Seq<char>) -> bool {
    &&& text.len() == 24
    &&& forall|i: int| 0 <= i < 22 ==> is_symbol(#[trigger] text[i])
    &&& text[22] == pad()
    &&& text[23] == pad()
}

/// A key is its octets: two keys with the same octets are the same key.
pub proof fn lemma_key_is_its_octets(a: WebSocketKey, b: WebSocketKey)
    requires
        a@ == b@,
    ensures
        a == b,
{
    assert(a.0 =~= b.0);
}

/// The text of sixteen octets has the shape of [`is_key_text`], and is ASCII.
pub proof fn lemma_text_of_sixteen(bytes: Seq<u8>)
    requires
        bytes.len() == KEY_LEN,
    ensures
        is_key_text(standard_encoding(bytes)),
        is_ascii_chars(standard_encoding(bytes)),
{
    let text = standard_encoding(bytes);
    lemma_encoding_len(bytes);
    assert forall|i: int| 0 <= i < 24 implies (if i < 22 {
        is_symbol(#[trigger] text[i])
    } else {
        text[i] == pad()
    }) by {
        lemma_encoding_chars(bytes, i);
    }
    assert(text[22] == pad() && text[23] == pad());
    assert forall|i: int| 0 <= i < text.len() implies 0 <= (#[trigger] text[i] as nat) < 128 by {
        assert(is_symbol(text[i]) || text[i] == pad());
    }
}

/// The wire form of every key has the shape of [`is_key_text`], and is ASCII.
pub proof fn lemma_text_is_canonical(key: WebSocketKey)
    ensures
        is_key_text(key.text()),
        is_ascii_chars(key.text()),
{
    lemma_text_of_sixteen(key@);
}

/// A text that is read as a key is the wire form of that key, and so has the
/// shape of [`is_key_text`]: no other spelling of a key is taken.
pub proof fn lemma_accepted_text_is_wire_form(text: Seq<char>, bytes: Seq<u8>)
    requires
        key_of_text(text) == Ok::<Seq<u8>, Fault>(bytes),
    ensures
        bytes.len() == KEY_LEN,
        standard_encoding(bytes) == text,
        is_key_text(text),
{
    lemma_text_of_sixteen(bytes);
}

/// The wire form of the key whose octets are all `0x41`, the letter `A`.
pub proof fn lemma_wire_form_of_all_a(key: WebSocketKey)
    requires
        forall|i: int| 0 <= i < KEY_LEN ==> key@[i] == 0x41u8,
    ensures
        key.text() == "QUFBQUFBQUFBQUFBQUFBQQ=="@,
{
    reveal_strlit("QUFBQUFBQUFBQUFBQUFBQQ==");
    reveal_with_fuel(standard_encoding, 6);
    let b0 = key@;
    let b1 = b0.skip(3);
    let b2 = b1.skip(3);
    let b3 = b2.skip(3);
    let b4 = b3.skip(3);
    let b5 = b4.skip(3);
    assert(b5.len() == 1 && b5[0] == 0x41u8);
    assert(standard_encoding(b5) =~= seq!['Q', 'Q', '=', '=']);
    assert(standard_encoding(b4) =~= seq!['Q', 'U', 'F', 'B'] + standard_encoding(b5));
    assert(standard_encoding(b3) =~= seq!['Q', 'U', 'F', 'B'] + standard_encoding(b4));
    assert(standard_encoding(b2) =~= seq!['Q', 'U', 'F', 'B'] + standard_encoding(b3));
    assert(standard_encoding(b1) =~= seq!['Q', 'U', 'F', 'B'] + standard_encoding(b2));
    assert(standard_encoding(b0) =~= seq!['Q', 'U', 'F', 'B'] + standard_encoding(b1));
    assert(key.text() =~= "QUFBQUFBQUFBQUFBQUFBQQ=="@);
}

/// Reading the text that a key writes gives that key back.
pub proof fn lemma_parse_of_serialize(key: WebSocketKey)
    ensures
        key_of_text(key.text()) == Ok::<Seq<u8>, Fault>(key@),
{
    lemma_decoding_of_encoding(key@);
}

/// The text of a byte string that has more or fewer than sixteen octets is
/// turned down for its length.
pub proof fn lemma_length_gate(bytes: Seq<u8>)
    requires
        bytes.len() != KEY_LEN,
    ensures
        key_of_text(standard_encoding(bytes)) == Err::<Seq<u8>, Fault>(
            Fault::ProtocolError(wrong_length_reason()),
        ),
{
    lemma_decoding_of_encoding(bytes);
}

/// A text that holds a character which is neither of the alphabet nor the
/// padding character is turned down as no Base64.
pub proof fn lemma_foreign_character_rejected(text: Seq<char>, i: int)
    requires
        0 <= i < text.len(),
        !is_symbol(text[i]),
        text[i] != pad(),
    ensures
        key_of_text(text) == Err::<Seq<u8>, Fault>(Fault::ProtocolError(invalid_reason())),
{
    if standard_decoding(text) is Some {
        let bytes = standard_decoding(text).unwrap();
        lemma_encoding_chars(bytes, i);
    }
}

/// A text with a padding character before one that is not padding is turned
/// down as no Base64: padding only closes a text.
pub proof fn lemma_inner_padding_rejected(text: Seq<char>, i: int, j: int)
    requires
        0 <= i < j < text.len(),
        text[i] == pad(),
        text[j] != pad(),
    ensures
        key_of_text(text) == Err::<Seq<u8>, Fault>(Fault::ProtocolError(invalid_reason())),
{
    if standard_decoding(text) is Some {
        let bytes = standard_decoding(text).unwrap();
        lemma_encoding_chars(bytes, i);
        lemma_encoding_chars(bytes, j);
    }
}

impl PartialEq for WebSocketKey {
    /// Two keys are equal when their octets are.
    fn eq(&self, other: &WebSocketKey) -> (equal: bool) {
        let mut i: usize = 0;
        while i < KEY_LEN
            invariant
                i <= KEY_LEN,
                forall|j: int| 0 <= j < i ==> self.0@[j] == other.0@[j],
            decreases KEY_LEN - i,
        {
            if self.0[i] != other.0[i] {
                return false;
            }
            i += 1;
        }
        assert(self.0@ =~= other.0@);
        true
    }
}

impl PartialEqSpecImpl for WebSocketKey {
    open spec fn obeys_eq_spec() -> bool {
        true
    }

    open spec fn eq_spec(&self, other: &WebSocketKey) -> bool {
        self@ == other@
    }
}

impl Default for WebSocketKey {
    /// The key of sixteen zero octets.
    fn default() -> (key: WebSocketKey)
        ensures
            key@ == Seq::new(KEY_LEN as nat, |i: int| 0u8),
    {
        let key = WebSocketKey([0u8; 16]);
        assert(key@ =~= Seq::new(KEY_LEN as nat, |i: int| 0u8));
        key
    }
}

} // verus!
