//! Base64 as RFC 4648, section 4, defines it: the alphabet `A-Z a-z 0-9 + /`,
//! three octets to four characters, `=` to fill the last group.
//!
//! The encoding is given as a function on sequences, with what follows from
//! it: how long a text is, which characters it holds, and that no two byte
//! strings share a text.

use vstd::prelude::*;

verus! {

/// The character that fills the last group of a text.
pub open spec fn pad() -> char {
    '='
}

/// The character that stands for a six-bit value.
pub open spec fn symbol(value: int) -> char {
    if value < 26 {
        ('A' as int + value) as u8 as char
    } else if value < 52 {
        ('a' as int + value - 26) as u8 as char
    } else if value < 62 {
        ('0' as int + value - 52) as u8 as char
    } else if value == 62 {
        '+'
    } else {
        '/'
    }
}

/// Whether a character belongs to the alphabet.
pub open spec fn is_symbol(c: char) -> bool {
    ||| 'A' <= c <= 'Z'
    ||| 'a' <= c <= 'z'
    ||| '0' <= c <= '9'
    ||| c == '+'
    ||| c == '/'
}

/// The four characters of three octets.
pub open spec fn group(b0: u8, b1: u8, b2: u8) -> Seq<char> {
    seq![
        symbol(b0 as int / 4),
        symbol((b0 as int % 4) * 16 + b1 as int / 16),
        symbol((b1 as int % 16) * 4 + b2 as int / 64),
        symbol(b2 as int % 64),
    ]
}

/// The padded text of a byte string in the standard alphabet.
pub open spec fn standard_encoding(bytes: Seq<u8>) -> Seq<char>
    decreases bytes.len(),
{
    if bytes.len() == 0 {
        Seq::empty()
    } else if bytes.len() == 1 {
        group(bytes[0], 0, 0).take(2) + seq![pad(), pad()]
    } else if bytes.len() == 2 {
        group(bytes[0], bytes[1], 0).take(3) + seq![pad()]
    } else {
        group(bytes[0], bytes[1], bytes[2]) + standard_encoding(bytes.skip(3))
    }
}

/// The bytes that a text stands for, if it is the padded text of any.
pub open spec fn standard_decoding(text: Seq<char>) -> Option<Seq<u8>> {
    if exists|bytes: Seq<u8>| standard_encoding(bytes) == text {
        Some(choose|bytes: Seq<u8>| standard_encoding(bytes) == text)
    } else {
        None
    }
}

/// How many characters the text of `len` octets has.
pub open spec fn encoded_len(len: nat) -> nat {
    4 * ((len + 2) / 3)
}

/// Each six-bit value has a character of the alphabet of its own, and none
/// has the padding character.
pub proof fn lemma_symbol(a: int, b: int)
    requires
        0 <= a < 64,
        0 <= b < 64,
    ensures
        is_symbol(symbol(a)),
        symbol(a) != pad(),
        symbol(a) == symbol(b) ==> a == b,
{
}

/// Three octets can be read back from their four characters.
pub proof fn lemma_group_injective(a0: u8, a1: u8, a2: u8, b0: u8, b1: u8, b2: u8)
    requires
        group(a0, a1, a2) == group(b0, b1, b2),
    ensures
        a0 == b0,
        a1 == b1,
        a2 == b2,
{
    let p = group(a0, a1, a2);
    let q = group(b0, b1, b2);
    assert(p[0] == q[0] && p[1] == q[1] && p[2] == q[2] && p[3] == q[3]);
    lemma_symbol(a0 as int / 4, b0 as int / 4);
    lemma_symbol((a0 as int % 4) * 16 + a1 as int / 16, (b0 as int % 4) * 16 + b1 as int / 16);
    lemma_symbol((a1 as int % 16) * 4 + a2 as int / 64, (b1 as int % 16) * 4 + b2 as int / 64);
    lemma_symbol(a2 as int % 64, b2 as int % 64);
}

/// A text has four characters for every three octets begun.
pub proof fn lemma_encoding_len(bytes: Seq<u8>)
    ensures
        standard_encoding(bytes).len() == encoded_len(bytes.len()),
    decreases bytes.len(),
{
    if bytes.len() >= 3 {
        lemma_encoding_len(bytes.skip(3));
    }
}

/// The text of three octets or more opens with the group of the first three,
/// and goes on with the text of the rest.
pub proof fn lemma_encoding_unfold(bytes: Seq<u8>)
    requires
        bytes.len() >= 3,
    ensures
        standard_encoding(bytes).take(4) == group(bytes[0], bytes[1], bytes[2]),
        standard_encoding(bytes).skip(4) == standard_encoding(bytes.skip(3)),
{
    let head = group(bytes[0], bytes[1], bytes[2]);
    let tail = standard_encoding(bytes.skip(3));
    assert((head + tail).take(4) =~= head);
    assert((head + tail).skip(4) =~= tail);
}

/// No two byte strings have the same text.
pub proof fn lemma_encoding_injective(a: Seq<u8>, b: Seq<u8>)
    requires
        standard_encoding(a) == standard_encoding(b),
    ensures
        a == b,
    decreases a.len(),
{
    let text = standard_encoding(a);
    lemma_encoding_len(a);
    lemma_encoding_len(b);
    if a.len() >= 3 && b.len() >= 3 {
        lemma_encoding_unfold(a);
        lemma_encoding_unfold(b);
        lemma_group_injective(a[0], a[1], a[2], b[0], b[1], b[2]);
        lemma_encoding_injective(a.skip(3), b.skip(3));
        assert forall|i: int| 0 <= i < a.len() implies a[i] == b[i] by {
            if i >= 3 {
                assert(a[i] == a.skip(3)[i - 3]);
                assert(b[i] == b.skip(3)[i - 3]);
            }
        }
        assert(a.len() == b.len()) by {
            assert(a.skip(3).len() == b.skip(3).len());
        }
        assert(a =~= b);
    } else {
        // One of the two is shorter than a group, so the text is one group at
        // most, and its padding tells how many octets it holds.
        assert(a.len() <= 3 && b.len() <= 3);
        if a.len() == 3 {
            assert(standard_encoding(a.skip(3)) =~= Seq::<char>::empty());
            lemma_symbol(a[2] as int % 64, 0);
            assert(text[3] == symbol(a[2] as int % 64));
        }
        if b.len() == 3 {
            assert(standard_encoding(b.skip(3)) =~= Seq::<char>::empty());
            lemma_symbol(b[2] as int % 64, 0);
            assert(text[3] == symbol(b[2] as int % 64));
        }
        if a.len() == 2 {
            lemma_symbol((a[1] as int % 16) * 4, 0);
            assert(text[2] == symbol((a[1] as int % 16) * 4));
            assert(text[3] == pad());
        }
        if b.len() == 2 {
            lemma_symbol((b[1] as int % 16) * 4, 0);
            assert(text[2] == symbol((b[1] as int % 16) * 4));
            assert(text[3] == pad());
        }
        if a.len() == 1 {
            assert(text[2] == pad());
        }
        if b.len() == 1 {
            assert(text[2] == pad());
        }
        assert(a.len() == b.len());
        if a.len() == 1 {
            assert(text[0] == symbol(a[0] as int / 4) && text[0] == symbol(b[0] as int / 4));
            assert(text[1] == symbol((a[0] as int % 4) * 16));
            assert(text[1] == symbol((b[0] as int % 4) * 16));
            lemma_symbol(a[0] as int / 4, b[0] as int / 4);
            lemma_symbol((a[0] as int % 4) * 16, (b[0] as int % 4) * 16);
        } else if a.len() == 2 {
            assert(text[0] == symbol(a[0] as int / 4) && text[0] == symbol(b[0] as int / 4));
            assert(text[1] == symbol((a[0] as int % 4) * 16 + a[1] as int / 16));
            assert(text[1] == symbol((b[0] as int % 4) * 16 + b[1] as int / 16));
            lemma_symbol(a[0] as int / 4, b[0] as int / 4);
            lemma_symbol(
                (a[0] as int % 4) * 16 + a[1] as int / 16,
                (b[0] as int % 4) * 16 + b[1] as int / 16,
            );
            lemma_symbol((a[1] as int % 16) * 4, (b[1] as int % 16) * 4);
        }
        assert(a =~= b);
    }
}

/// A text is the padded text of the bytes that it decodes to, and of no
/// others.
pub proof fn lemma_decoding_of_encoding(bytes: Seq<u8>)
    ensures
        standard_decoding(standard_encoding(bytes)) == Some(bytes),
{
    let text = standard_encoding(bytes);
    let chosen = choose|other: Seq<u8>| standard_encoding(other) == text;
    lemma_encoding_injective(chosen, bytes);
}

/// The test vectors of RFC 4648, section 10.
pub proof fn lemma_rfc_vectors()
    ensures
        standard_encoding(seq![]) == ""@,
        standard_encoding(seq![0x66u8]) == "Zg=="@,
        standard_encoding(seq![0x66u8, 0x6f]) == "Zm8="@,
        standard_encoding(seq![0x66u8, 0x6f, 0x6f]) == "Zm9v"@,
        standard_encoding(seq![0x66u8, 0x6f, 0x6f, 0x62]) == "Zm9vYg=="@,
        standard_encoding(seq![0x66u8, 0x6f, 0x6f, 0x62, 0x61]) == "Zm9vYmE="@,
        standard_encoding(seq![0x66u8, 0x6f, 0x6f, 0x62, 0x61, 0x72]) == "Zm9vYmFy"@,
{
    reveal_strlit("");
    reveal_strlit("Zg==");
    reveal_strlit("Zm8=");
    reveal_strlit("Zm9v");
    reveal_strlit("Zm9vYg==");
    reveal_strlit("Zm9vYmE=");
    reveal_strlit("Zm9vYmFy");
    reveal_with_fuel(standard_encoding, 3);
    let foo: Seq<u8> = seq![0x66u8, 0x6f, 0x6f];
    let foob: Seq<u8> = seq![0x66u8, 0x6f, 0x6f, 0x62];
    let fooba: Seq<u8> = seq![0x66u8, 0x6f, 0x6f, 0x62, 0x61];
    let foobar: Seq<u8> = seq![0x66u8, 0x6f, 0x6f, 0x62, 0x61, 0x72];
    assert(foo.skip(3) =~= seq![]);
    assert(foob.skip(3) =~= seq![0x62u8]);
    assert(fooba.skip(3) =~= seq![0x62u8, 0x61]);
    assert(foobar.skip(3) =~= seq![0x62u8, 0x61, 0x72]);
    assert(foobar.skip(3).skip(3) =~= seq![]);
    assert(standard_encoding(seq![]) =~= ""@);
    assert(standard_encoding(seq![0x66u8]) =~= "Zg=="@);
    assert(standard_encoding(seq![0x66u8, 0x6f]) =~= "Zm8="@);
    assert(standard_encoding(foo) =~= "Zm9v"@);
    assert(standard_encoding(foob) =~= "Zm9vYg=="@);
    assert(standard_encoding(fooba) =~= "Zm9vYmE="@);
    assert(standard_encoding(foobar) =~= "Zm9vYmFy"@);
}

/// How many padding characters close the text of `len` octets.
pub open spec fn padding_len(len: nat) -> nat {
    ((3 - len % 3) % 3) as nat
}

/// A text holds characters of the alphabet, then its padding and nothing
/// else.
pub proof fn lemma_encoding_chars(bytes: Seq<u8>, i: int)
    requires
        0 <= i < standard_encoding(bytes).len(),
    ensures
        i < encoded_len(bytes.len()) - padding_len(bytes.len()) ==> is_symbol(
            standard_encoding(bytes)[i],
        ),
        i >= encoded_len(bytes.len()) - padding_len(bytes.len()) ==> standard_encoding(bytes)[i]
            == pad(),
    decreases bytes.len(),
{
    lemma_encoding_len(bytes);
    if bytes.len() >= 3 {
        let head = group(bytes[0], bytes[1], bytes[2]);
        let tail = standard_encoding(bytes.skip(3));
        lemma_encoding_len(bytes.skip(3));
        if i < 4 {
            assert(standard_encoding(bytes)[i] == head[i]);
            lemma_symbol(bytes[0] as int / 4, 0);
            lemma_symbol((bytes[0] as int % 4) * 16 + bytes[1] as int / 16, 0);
            lemma_symbol((bytes[1] as int % 16) * 4 + bytes[2] as int / 64, 0);
            lemma_symbol(bytes[2] as int % 64, 0);
        } else {
            assert(standard_encoding(bytes)[i] == tail[i - 4]);
            lemma_encoding_chars(bytes.skip(3), i - 4);
        }
    } else if bytes.len() == 2 {
        lemma_symbol(bytes[0] as int / 4, 0);
        lemma_symbol((bytes[0] as int % 4) * 16 + bytes[1] as int / 16, 0);
        lemma_symbol((bytes[1] as int % 16) * 4, 0);
    } else if bytes.len() == 1 {
        lemma_symbol(bytes[0] as int / 4, 0);
        lemma_symbol((bytes[0] as int % 4) * 16, 0);
    }
}

/// What `base64` reports when a text is no Base64.
#[verifier::external_type_specification]
#[verifier::external_body]
pub struct ExDecodeError(base64::DecodeError);

/// Calls `base64::encode`, which encodes with the crate's `STANDARD` engine:
/// the alphabet of RFC 4648, section 4, with padding. The contract claims that
/// the string returned is [`standard_encoding`] of the sixteen octets.
#[allow(deprecated)]
#[verifier::external_body]
pub(crate) fn encode_standard(bytes: &[u8; 16]) -> (text: String)
    ensures
        text@ == standard_encoding(bytes@),
{
    base64::encode(bytes)
}

/// Calls `base64::decode`, which decodes with the crate's `STANDARD` engine.
/// That engine takes the alphabet of RFC 4648, section 4, asks for canonical
/// padding and refuses bits set beyond the last octet. The contract claims
/// that it therefore accepts a text exactly when the text is the
/// [`standard_encoding`] of some byte string, and then returns those bytes.
#[allow(deprecated)]
#[verifier::external_body]
pub(crate) fn decode_standard(text: &str) -> (decoded: Result<Vec<u8>, base64::DecodeError>)
    ensures
        decoded matches Ok(bytes) ==> standard_encoding(bytes@) == text@,
        decoded is Err ==> forall|bytes: Seq<u8>| standard_encoding(bytes) != text@,
{
    base64::decode(text)
}

} // verus!
