//! Calls into other crates and into parts of std that Verus has no contract
//! for. Every contract on a function body in this file is taken on trust.
use base64::Engine;
use rand::RngCore;
use vstd::prelude::*;
use vstd::utf8::*;

verus! {

// ---------------------------------------------------------------------------
// Hexadecimal
// ---------------------------------------------------------------------------

/// The lower-case hexadecimal digit of value `d`.
pub open spec fn hex_digit(d: int) -> char {
    if d < 10 {
        (0x30 + d) as char
    } else {
        (0x61 + d - 10) as char
    }
}

/// The value of a hexadecimal digit of either case, and -1 for other characters.
pub open spec fn hex_value(c: char) -> int {
    if '0' <= c <= '9' {
        c as int - 0x30
    } else if 'a' <= c <= 'f' {
        c as int - 0x61 + 10
    } else if 'A' <= c <= 'F' {
        c as int - 0x41 + 10
    } else {
        -1
    }
}

/// Two lower-case digits for each byte, the high half first.
pub open spec fn hex_text(bytes: Seq<u8>) -> Seq<char> {
    Seq::new(
        bytes.len() * 2,
        |i: int|
            if i % 2 == 0 {
                hex_digit(bytes[i / 2] as int / 16)
            } else {
                hex_digit(bytes[i / 2] as int % 16)
            },
    )
}

/// The bytes that a text of hexadecimal digit pairs stands for, if it is one.
pub open spec fn hex_bytes(text: Seq<char>) -> Option<Seq<u8>> {
    if text.len() % 2 == 0 && forall|i: int|
        0 <= i < text.len() ==> hex_value(#[trigger] text[i]) >= 0 {
        Some(
            Seq::new(
                text.len() / 2,
                |i: int| (hex_value(text[2 * i]) * 16 + hex_value(text[2 * i + 1])) as u8,
            ),
        )
    } else {
        None
    }
}

/// Why a text is not hexadecimal.
#[derive(Debug, Clone, Copy, PartialEq, Eq, Structural)]
pub enum HexRefusal {
    /// A byte of the text is no digit; the character of that number, and where
    /// the byte stands.
    InvalidCharacter { c: char, index: usize },
    /// The text has an odd number of bytes.
    OddLength,
    /// The text does not fill a container of fixed size.
    WrongLength,
}

/// A byte of a text is a hexadecimal digit.
pub open spec fn hex_byte(b: u8) -> bool {
    hex_value(b as char) >= 0
}

/// `index` is the first byte of a text that is no hexadecimal digit.
pub open spec fn first_bad_byte(bytes: Seq<u8>, index: int) -> bool {
    &&& 0 <= index < bytes.len()
    &&& !hex_byte(bytes[index])
    &&& forall|j: int| 0 <= j < index ==> hex_byte(#[trigger] bytes[j])
}

/// `why` is the reason for which a text is not hexadecimal: an odd number of
/// bytes, or else the first byte that is no digit.
pub open spec fn hex_refused(text: Seq<char>, why: HexRefusal) -> bool {
    let bytes = encode_utf8(text);
    match why {
        HexRefusal::OddLength => bytes.len() % 2 != 0,
        HexRefusal::InvalidCharacter { c, index } => {
            &&& bytes.len() % 2 == 0
            &&& first_bad_byte(bytes, index as int)
            &&& c == bytes[index as int] as char
        },
        HexRefusal::WrongLength => false,
    }
}

/// The reason for which a text is not hexadecimal.
pub open spec fn hex_refusal(text: Seq<char>) -> HexRefusal {
    choose|why: HexRefusal| hex_refused(text, why)
}

/// `hex::encode`: two lower-case digits for each byte.
#[verifier::external_body]
pub(crate) fn hex_encode(data: &[u8]) -> (r: String)
    ensures
        r@ == hex_text(data@),
{
    hex::encode(data)
}

/// `hex::decode`: succeeds exactly on an even number of hexadecimal digits of
/// either case, and then gives the bytes that the pairs stand for. It refuses an
/// odd number of bytes first, and else the first byte that is no digit; it never
/// speaks of a container's size.
#[verifier::external_body]
pub(crate) fn hex_decode(text: &str) -> (r: Result<Vec<u8>, HexRefusal>)
    ensures
        match r {
            Ok(v) => hex_bytes(text@) == Some(v@),
            Err(why) => hex_bytes(text@) is None && hex_refused(text@, why),
        },
{
    hex::decode(text).map_err(
        |e| match e {
            hex::FromHexError::InvalidHexCharacter { c, index } => {
                HexRefusal::InvalidCharacter { c, index }
            },
            hex::FromHexError::OddLength => HexRefusal::OddLength,
            hex::FromHexError::InvalidStringLength => HexRefusal::WrongLength,
        },
    )
}

// ---------------------------------------------------------------------------
// Base64
// ---------------------------------------------------------------------------

/// The symbol of value `d` in the standard alphabet of RFC 4648.
pub open spec fn base64_symbol(d: int) -> char {
    if d < 26 {
        (0x41 + d) as char
    } else if d < 52 {
        (0x61 + d - 26) as char
    } else if d < 62 {
        (0x30 + d - 52) as char
    } else if d == 62 {
        '+'
    } else {
        '/'
    }
}

/// The four symbols of three bytes.
pub open spec fn base64_quad(a: int, b: int, c: int) -> Seq<char> {
    seq![
        base64_symbol(a / 4),
        base64_symbol((a % 4) * 16 + b / 16),
        base64_symbol((b % 16) * 4 + c / 64),
        base64_symbol(c % 64),
    ]
}

/// The padded standard base64 encoding of `bytes` (RFC 4648, section 4).
pub open spec fn base64_text(bytes: Seq<u8>) -> Seq<char>
    decreases bytes.len(),
{
    if bytes.len() == 0 {
        Seq::empty()
    } else if bytes.len() == 1 {
        base64_quad(bytes[0] as int, 0, 0).take(2) + seq!['=', '=']
    } else if bytes.len() == 2 {
        base64_quad(bytes[0] as int, bytes[1] as int, 0).take(3) + seq!['=']
    } else {
        base64_quad(bytes[0] as int, bytes[1] as int, bytes[2] as int) + base64_text(bytes.skip(3))
    }
}

/// The bytes whose base64 encoding `text` is, if there are any.
pub open spec fn base64_bytes(text: Seq<char>) -> Option<Seq<u8>> {
    if exists|b: Seq<u8>| base64_text(b) == text {
        Some(choose|b: Seq<u8>| base64_text(b) == text)
    } else {
        None
    }
}

/// Why a base64 engine refused a text.
#[verifier::external_type_specification]
#[verifier::external_body]
pub struct ExDecodeError(base64::DecodeError);

/// `decode` of `base64::engine::general_purpose::STANDARD`: padding must be
/// canonical and unused trailing bits must be zero, so it succeeds exactly on
/// the encodings of byte sequences, and then gives the bytes encoded.
#[verifier::external_body]
pub(crate) fn base64_decode(text: &str) -> (r: Result<Vec<u8>, base64::DecodeError>)
    ensures
        match r {
            Ok(v) => base64_text(v@) == text@,
            Err(_) => forall|b: Seq<u8>| #[trigger] base64_text(b) != text@,
        },
{
    base64::engine::general_purpose::STANDARD.decode(text)
}

// ---------------------------------------------------------------------------
// UTF-8
// ---------------------------------------------------------------------------

/// `String::from_utf8`: succeeds exactly on valid UTF-8, and then gives the
/// characters encoded.
#[verifier::external_body]
pub(crate) fn string_from_utf8(bytes: Vec<u8>) -> (r: Option<String>)
    ensures
        match r {
            Some(s) => valid_utf8(bytes@) && s@ == decode_utf8(bytes@),
            None => !valid_utf8(bytes@),
        },
{
    String::from_utf8(bytes).ok()
}

/// The text that `String::from_utf8_lossy` makes of `bytes`: what is not valid
/// UTF-8 is replaced by U+FFFD.
pub uninterp spec fn lossy_text(bytes: Seq<u8>) -> Seq<char>;

/// `String::from_utf8_lossy`: a function of the bytes alone, and the plain
/// decoding where they are valid UTF-8.
#[verifier::external_body]
pub(crate) fn string_from_utf8_lossy(bytes: &[u8]) -> (r: String)
    ensures
        r@ == lossy_text(bytes@),
        valid_utf8(bytes@) ==> r@ == decode_utf8(bytes@),
{
    String::from_utf8_lossy(bytes).into_owned()
}

// ---------------------------------------------------------------------------
// Chance and time
// ---------------------------------------------------------------------------

/// Why the operating system gave no random bytes.
#[verifier::external_type_specification]
#[verifier::external_body]
pub struct ExRandError(rand::Error);

/// `try_fill_bytes` of `rand::rngs::OsRng` on a buffer of `len` bytes. Which
/// bytes come, and whether any do, is left to the operating system.
#[verifier::external_body]
pub(crate) fn os_random_bytes(len: usize) -> (r: Result<Vec<u8>, rand::Error>)
    ensures
        match r {
            Ok(bytes) => bytes@.len() == len,
            Err(_) => true,
        },
{
    let mut bytes = vec![0u8; len];
    rand::rngs::OsRng.try_fill_bytes(&mut bytes)?;
    Ok(bytes)
}

/// A moment in UTC: whole seconds since the start of 1970, and nanoseconds past
/// the last whole second.
#[derive(Debug, Clone, Copy, PartialEq, Eq, Structural)]
pub struct Timestamp {
    pub seconds: i64,
    pub nanos: u32,
}

/// `chrono::Utc::now`, as whole seconds and nanoseconds. The moment itself is
/// left open; where the system clock stands before 1970, the call panics.
#[verifier::external_body]
pub(crate) fn utc_now() -> (r: Timestamp)
    ensures
        r.nanos < 1_000_000_000,
{
    let now = chrono::Utc::now();
    Timestamp { seconds: now.timestamp(), nanos: now.timestamp_subsec_nanos() }
}

// ---------------------------------------------------------------------------
// Facts about the encodings
// ---------------------------------------------------------------------------

/// Decoding hexadecimal text gives back the bytes that were encoded.
pub proof fn law_hex_round_trip(bytes: Seq<u8>)
    ensures
        hex_bytes(hex_text(bytes)) == Some(bytes),
{
    let text = hex_text(bytes);
    assert forall|i: int| 0 <= i < text.len() implies hex_value(#[trigger] text[i]) >= 0 by {
        lemma_hex_digit(bytes[i / 2] as int / 16);
        lemma_hex_digit(bytes[i / 2] as int % 16);
    }
    let back = Seq::new(
        text.len() / 2,
        |i: int| (hex_value(text[2 * i]) * 16 + hex_value(text[2 * i + 1])) as u8,
    );
    assert forall|i: int| 0 <= i < bytes.len() implies back[i] == bytes[i] by {
        lemma_hex_digit(bytes[i] as int / 16);
        lemma_hex_digit(bytes[i] as int % 16);
        assert((2 * i) / 2 == i && (2 * i + 1) / 2 == i);
    }
    assert(back =~= bytes);
}

/// A text is refused for one reason only.
pub proof fn lemma_one_refusal(text: Seq<char>, why: HexRefusal)
    requires
        hex_refused(text, why),
    ensures
        hex_refusal(text) == why,
{
    let bytes = encode_utf8(text);
    let other = hex_refusal(text);
    assert(hex_refused(text, other));
    if let HexRefusal::InvalidCharacter { index: i, .. } = why {
        if let HexRefusal::InvalidCharacter { index: j, .. } = other {
            if i < j {
                assert(hex_byte(bytes[i as int]));
            }
            if j < i {
                assert(hex_byte(bytes[j as int]));
            }
        }
    }
}

proof fn lemma_hex_digit(d: int)
    requires
        0 <= d < 16,
    ensures
        hex_value(hex_digit(d)) == d,
{
}

/// Different byte sequences have different base64 encodings.
pub proof fn law_base64_injective(a: Seq<u8>, b: Seq<u8>)
    requires
        base64_text(a) == base64_text(b),
    ensures
        a == b,
    decreases a.len(),
{
    lemma_base64_head(a);
    lemma_base64_head(b);
    if a.len() == 0 {
        assert(a =~= b);
    } else {
        let (a0, a1, a2) = base64_group(a);
        let (b0, b1, b2) = base64_group(b);
        let s = base64_text(a);
        let t = base64_text(b);
        lemma_symbol_injective(a0 / 4, b0 / 4);
        lemma_symbol_injective((a0 % 4) * 16 + a1 / 16, (b0 % 4) * 16 + b1 / 16);
        if a.len() >= 2 {
            assert(s[2] != '=');
            lemma_symbol_injective((a1 % 16) * 4 + a2 / 64, (b1 % 16) * 4 + b2 / 64);
        }
        if a.len() >= 3 {
            assert(s[3] != '=');
            lemma_symbol_injective(a2 % 64, b2 % 64);
            assert(base64_text(a.skip(3)) =~= s.skip(4));
            assert(base64_text(b.skip(3)) =~= t.skip(4));
            law_base64_injective(a.skip(3), b.skip(3));
            assert(a =~= seq![a[0], a[1], a[2]] + a.skip(3));
            assert(b =~= seq![b[0], b[1], b[2]] + b.skip(3));
        } else {
            assert(s[3] == '=');
            assert(t[3] == '=');
            if a.len() == 1 {
                assert(s[2] == '=');
                assert(t[2] == '=');
            }
            assert(a =~= b);
        }
    }
}

/// The base64 decoding of an encoding is what was encoded.
pub proof fn law_base64_round_trip(bytes: Seq<u8>)
    ensures
        base64_bytes(base64_text(bytes)) == Some(bytes),
{
    let text = base64_text(bytes);
    let b = choose|b: Seq<u8>| base64_text(b) == text;
    assert(base64_text(bytes) == text);
    assert(base64_text(b) == text);
    law_base64_injective(b, bytes);
}

/// The first three bytes, with zero for those that are missing.
spec fn base64_group(bytes: Seq<u8>) -> (int, int, int) {
    (
        bytes[0] as int,
        if bytes.len() > 1 {
            bytes[1] as int
        } else {
            0
        },
        if bytes.len() > 2 {
            bytes[2] as int
        } else {
            0
        },
    )
}

/// The first four symbols of an encoding.
proof fn lemma_base64_head(bytes: Seq<u8>)
    ensures
        bytes.len() == 0 ==> base64_text(bytes).len() == 0,
        bytes.len() > 0 ==> {
            let t = base64_text(bytes);
            let (a, b, c) = base64_group(bytes);
            &&& t.len() >= 4
            &&& t[0] == base64_symbol(a / 4)
            &&& t[1] == base64_symbol((a % 4) * 16 + b / 16)
            &&& t[2] == (if bytes.len() > 1 {
                base64_symbol((b % 16) * 4 + c / 64)
            } else {
                '='
            })
            &&& t[3] == (if bytes.len() > 2 {
                base64_symbol(c % 64)
            } else {
                '='
            })
            &&& base64_symbol((b % 16) * 4 + c / 64) != '='
            &&& base64_symbol(c % 64) != '='
        },
{
}

proof fn lemma_symbol_injective(x: int, y: int)
    requires
        0 <= x < 64,
        0 <= y < 64,
        base64_symbol(x) == base64_symbol(y),
    ensures
        x == y,
{
}

} // verus!
