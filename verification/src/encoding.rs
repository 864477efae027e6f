//! URL-safe base64 without padding, and the keyed hash that signs relay paths.

use vstd::prelude::*;

verus! {

/// The character that stands for the six-bit value `v` in the URL-safe alphabet:
/// `A`-`Z`, `a`-`z`, `0`-`9`, then `-` and `_`.
pub open spec fn digit(v: int) -> char {
    if v < 26 {
        (65 + v) as u8 as char
    } else if v < 52 {
        (97 + (v - 26)) as u8 as char
    } else if v < 62 {
        (48 + (v - 52)) as u8 as char
    } else if v == 62 {
        '-'
    } else {
        '_'
    }
}

/// URL-safe base64 of `bytes`, without padding: each group of three bytes gives four
/// characters, and a last group of one or two bytes gives two or three.
pub open spec fn base64url(bytes: Seq<u8>) -> Seq<char>
    decreases bytes.len(),
{
    if bytes.len() == 0 {
        Seq::<char>::empty()
    } else if bytes.len() == 1 {
        let a = bytes[0] as int;
        seq![digit(a / 4), digit((a % 4) * 16)]
    } else if bytes.len() == 2 {
        let a = bytes[0] as int;
        let b = bytes[1] as int;
        seq![digit(a / 4), digit((a % 4) * 16 + b / 16), digit((b % 16) * 4)]
    } else {
        let a = bytes[0] as int;
        let b = bytes[1] as int;
        let c = bytes[2] as int;
        seq![
            digit(a / 4),
            digit((a % 4) * 16 + b / 16),
            digit((b % 16) * 4 + c / 64),
            digit(c % 64),
        ] + base64url(bytes.skip(3))
    }
}

/// How many characters the encoding of `n` bytes has.
pub open spec fn base64url_len(n: nat) -> nat {
    4 * (n / 3) + if n % 3 == 0 {
        0nat
    } else {
        (n % 3 + 1) as nat
    }
}

/// The encoding of `n` bytes has `base64url_len(n)` characters.
pub proof fn lemma_base64url_len(bytes: Seq<u8>)
    ensures
        base64url(bytes).len() == base64url_len(bytes.len()),
    decreases bytes.len(),
{
    if bytes.len() >= 3 {
        lemma_base64url_len(bytes.skip(3));
    }
}

/// The six-bit value that `c` stands for in the URL-safe alphabet.
pub open spec fn digit_value(c: char) -> int {
    if 'A' <= c <= 'Z' {
        c as int - 65
    } else if 'a' <= c <= 'z' {
        c as int - 97 + 26
    } else if '0' <= c <= '9' {
        c as int - 48 + 52
    } else if c == '-' {
        62
    } else {
        63
    }
}

/// The bytes that `text` stands for in URL-safe base64 without padding: each group of
/// four characters gives three bytes, and a last group of two or three characters gives
/// one or two.
pub open spec fn base64url_decoded(text: Seq<char>) -> Seq<u8>
    decreases text.len(),
{
    if text.len() < 2 {
        Seq::<u8>::empty()
    } else {
        let a = digit_value(text[0]);
        let b = digit_value(text[1]);
        let first = (a * 4 + b / 16) as u8;
        if text.len() == 2 {
            seq![first]
        } else {
            let c = digit_value(text[2]);
            let second = ((b % 16) * 16 + c / 4) as u8;
            if text.len() == 3 {
                seq![first, second]
            } else {
                let d = digit_value(text[3]);
                let third = ((c % 4) * 64 + d) as u8;
                seq![first, second, third] + base64url_decoded(text.skip(4))
            }
        }
    }
}

/// `digit_value` reads back what `digit` wrote.
pub proof fn lemma_digit_value(v: int)
    requires
        0 <= v < 64,
    ensures
        digit_value(digit(v)) == v,
{
}

/// Decoding an encoding gives the bytes back.
pub proof fn lemma_base64url_decodes(bytes: Seq<u8>)
    ensures
        base64url_decoded(base64url(bytes)) == bytes,
    decreases bytes.len(),
{
    let text = base64url(bytes);
    lemma_base64url_len(bytes);
    if bytes.len() == 0 {
    } else {
        let a = bytes[0] as int;
        lemma_digit_value(a / 4);
        if bytes.len() == 1 {
            lemma_digit_value((a % 4) * 16);
            assert(base64url_decoded(text) =~= bytes);
        } else {
            let b = bytes[1] as int;
            lemma_digit_value((a % 4) * 16 + b / 16);
            if bytes.len() == 2 {
                lemma_digit_value((b % 16) * 4);
                assert(base64url_decoded(text) =~= bytes);
            } else {
                let c = bytes[2] as int;
                lemma_digit_value((b % 16) * 4 + c / 64);
                lemma_digit_value(c % 64);
                let rest = bytes.skip(3);
                lemma_base64url_decodes(rest);
                assert(text.skip(4) =~= base64url(rest));
                assert(bytes =~= seq![bytes[0], bytes[1], bytes[2]] + rest);
                assert(base64url_decoded(text) =~= bytes);
            }
        }
    }
}

/// `c` is a character of the URL-safe alphabet.
pub open spec fn is_url_safe(c: char) -> bool {
    'A' <= c <= 'Z' || 'a' <= c <= 'z' || '0' <= c <= '9' || c == '-' || c == '_'
}

/// An encoding holds characters of the URL-safe alphabet only: no slash, and nothing
/// that a URL would escape.
pub proof fn lemma_base64url_is_url_safe(bytes: Seq<u8>)
    ensures
        forall|i: int| 0 <= i < base64url(bytes).len() ==> is_url_safe(#[trigger] base64url(bytes)[i]),
    decreases bytes.len(),
{
    if bytes.len() >= 3 {
        let rest = base64url(bytes.skip(3));
        lemma_base64url_is_url_safe(bytes.skip(3));
        assert forall|i: int| 0 <= i < base64url(bytes).len() implies is_url_safe(
            #[trigger] base64url(bytes)[i],
        ) by {
            if i >= 4 {
                assert(base64url(bytes)[i] == rest[i - 4]);
            }
        }
    }
}

/// The largest input that `encode_base64url` takes: its output must fit in `usize`.
pub open spec fn encodable(n: nat) -> bool {
    n / 3 <= usize::MAX / 4
}

/// Calls `base64::Engine::encode` on `base64::engine::general_purpose::URL_SAFE_NO_PAD`.
/// The contract states the encoding of RFC 4648, section 5, with the padding left out.
/// The call panics where the output length overflows `usize`, hence the bound.
#[verifier::external_body]
pub(crate) fn encode_base64url(bytes: &[u8]) -> (text: String)
    requires
        encodable(bytes@.len()),
    ensures
        text@ == base64url(bytes@),
{
    base64::Engine::encode(&base64::engine::general_purpose::URL_SAFE_NO_PAD, bytes)
}

/// What `HMAC-SHA1` gives for a key and a message.
pub uninterp spec fn hmac_sha1(key: Seq<u8>, message: Seq<u8>) -> Seq<u8>;

/// The longest key or message, in bytes, that `sign_sha1` takes.
pub const MAX_SIGNED_BYTES: usize = 0x7fff_ffff;

/// Calls `ring::hmac::Key::new` with `HMAC_SHA1_FOR_LEGACY_USE_ONLY` and then
/// `ring::hmac::sign`, and copies the tag out. The tag is a function of key and message
/// alone and has the 20 bytes of a SHA-1 digest. Both calls panic on inputs of 2^61 bytes
/// or more, hence the bounds.
#[verifier::external_body]
pub(crate) fn sign_sha1(key: &[u8], message: &[u8]) -> (tag: Vec<u8>)
    requires
        key@.len() <= MAX_SIGNED_BYTES,
        message@.len() <= MAX_SIGNED_BYTES,
    ensures
        tag@ == hmac_sha1(key@, message@),
        tag@.len() == 20,
{
    let key = ring::hmac::Key::new(ring::hmac::HMAC_SHA1_FOR_LEGACY_USE_ONLY, key);
    ring::hmac::sign(&key, message).as_ref().to_vec()
}

} // verus!
