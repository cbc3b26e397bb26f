//! Hexadecimal encoding of protected token bytes.
//!
//! Tokens are stored in `account.json` as the lower-case hexadecimal text of
//! the bytes that the platform's data protection produced; the launch path
//! decodes that text back to the bytes written to the registry.
use vstd::prelude::*;
use vstd::string::StringSliceAdditionalSpecFns;
use vstd::utf8::*;
use crate::text::push_char;

verus! {

/// The lower-case hexadecimal digit for a value below 16.
pub open spec fn nibble_char(n: u8) -> char {
    if n < 10 {
        ((n + 0x30) as u8) as char
    } else {
        ((n - 10 + 0x61) as u8) as char
    }
}

/// `format!("{:02x}", b)` for every byte, concatenated.
pub open spec fn hex_encode_spec(b: Seq<u8>) -> Seq<char>
    decreases b.len(),
{
    if b.len() == 0 {
        Seq::empty()
    } else {
        hex_encode_spec(b.drop_last()).push(nibble_char(b.last() / 16)).push(
            nibble_char(b.last() % 16),
        )
    }
}

fn nibble_to_char(n: u8) -> (c: char)
    requires
        n < 16,
    ensures
        c == nibble_char(n),
{
    if n < 10 {
        let b: u8 = n + 0x30;
        b as char
    } else {
        let b: u8 = n - 10 + 0x61;
        b as char
    }
}

/// Encodes bytes as lower-case hexadecimal text, two digits per byte.
pub fn hex_encode(bytes: &[u8]) -> (r: String)
    ensures
        r@ == hex_encode_spec(bytes@),
{
    let mut r = String::new();
    let mut i: usize = 0;
    while i < bytes.len()
        invariant
            i <= bytes.len(),
            r@ == hex_encode_spec(bytes@.take(i as int)),
        decreases bytes.len() - i,
    {
        let b = bytes[i];
        assert(bytes@.take(i as int + 1).drop_last() == bytes@.take(i as int));
        push_char(&mut r, nibble_to_char(b / 16));
        push_char(&mut r, nibble_to_char(b % 16));
        i += 1;
    }
    assert(bytes@.take(bytes.len() as int) == bytes@);
    r
}

/// The value of one byte read as a hexadecimal digit of either case.
pub open spec fn hex_digit_value(b: u8) -> Option<u8> {
    if 0x30 <= b <= 0x39 {
        Some((b - 0x30) as u8)
    } else if 0x61 <= b <= 0x66 {
        Some((b - 0x61 + 10) as u8)
    } else if 0x41 <= b <= 0x46 {
        Some((b - 0x41 + 10) as u8)
    } else {
        None
    }
}

/// The value of a two-byte chunk `[a, b]` of hexadecimal text: both bytes
/// must be hexadecimal digits, the first the high one.
pub open spec fn hex_pair_value(a: u8, b: u8) -> Option<u8> {
    match (hex_digit_value(a), hex_digit_value(b)) {
        (Some(h), Some(l)) => Some((h * 16 + l) as u8),
        _ => None,
    }
}

/// The first `k` two-byte chunks of `b` all parse.
pub open spec fn chunks_parse(b: Seq<u8>, k: int) -> bool {
    forall|j: int| 0 <= j < k ==> (#[trigger] hex_pair_value(b[2 * j], b[2 * j + 1])) is Some
}

/// The values of the first `k` two-byte chunks of `b`.
pub open spec fn chunk_values(b: Seq<u8>, k: nat) -> Seq<u8>
    decreases k,
{
    if k == 0 {
        Seq::empty()
    } else {
        chunk_values(b, (k - 1) as nat).push(
            hex_pair_value(b[2 * (k - 1)], b[2 * (k - 1) + 1]).unwrap(),
        )
    }
}

/// How decoding hexadecimal text ends.
pub enum HexOutcome {
    /// The text has an odd number of bytes.
    OddLength,
    /// Some chunk is not a hexadecimal number.
    InvalidDigit,
    /// The decoded bytes.
    Decoded(Seq<u8>),
}

/// The outcome of decoding the UTF-8 bytes `b` of a text.
pub open spec fn hex_decode_outcome(b: Seq<u8>) -> HexOutcome {
    if b.len() % 2 != 0 {
        HexOutcome::OddLength
    } else if chunks_parse(b, b.len() as int / 2) {
        HexOutcome::Decoded(chunk_values(b, b.len() / 2))
    } else {
        HexOutcome::InvalidDigit
    }
}

/// Decoding reaches every chunk without slicing a character apart: each chunk
/// that is reached starts and ends on a character boundary.
pub open spec fn hex_decode_slices_whole_chars(b: Seq<u8>) -> bool {
    b.len() % 2 != 0 || forall|k: int|
        0 <= k < b.len() / 2 && chunks_parse(b, k) ==> is_char_boundary(b, 2 * k)
            && is_char_boundary(b, 2 * k + 2)
}

fn hex_pair(a: u8, b: u8) -> (r: Option<u8>)
    ensures
        r == hex_pair_value(a, b),
{
    match (hex_digit(a), hex_digit(b)) {
        (Some(h), Some(l)) => Some(h * 16 + l),
        _ => None,
    }
}

fn hex_digit(b: u8) -> (r: Option<u8>)
    ensures
        r == hex_digit_value(b),
        r matches Some(v) ==> v < 16,
{
    if 0x30 <= b && b <= 0x39 {
        Some(b - 0x30)
    } else if 0x61 <= b && b <= 0x66 {
        Some(b - 0x61 + 10)
    } else if 0x41 <= b && b <= 0x46 {
        Some(b - 0x41 + 10)
    } else {
        None
    }
}

/// Decodes hexadecimal text into bytes.
///
/// Each pair of bytes of the text is read as a base-16 number; an odd byte
/// count and any pair that is not a number are errors.
pub fn hex_decode(hex: &str) -> (r: Result<Vec<u8>, String>)
    requires
        hex_decode_slices_whole_chars(hex.spec_bytes()),
    ensures
        match hex_decode_outcome(hex.spec_bytes()) {
            HexOutcome::OddLength => r matches Err(e) && e@ == "hex string has odd length"@,
            HexOutcome::InvalidDigit => r matches Err(e) && e@
                == "invalid hex: invalid digit found in string"@,
            HexOutcome::Decoded(v) => r matches Ok(out) && out@ == v,
        },
{
    let bytes = hex.as_bytes();
    let n = bytes.len();
    if n % 2 != 0 {
        return Err("hex string has odd length".to_owned());
    }
    let mut out: Vec<u8> = Vec::new();
    let mut k: usize = 0;
    while k < n / 2
        invariant
            n == bytes@.len(),
            bytes@ == hex.spec_bytes(),
            n % 2 == 0,
            k <= n / 2,
            chunks_parse(bytes@, k as int),
            out@ == chunk_values(bytes@, k as nat),
        decreases n / 2 - k,
    {
        match hex_pair(bytes[2 * k], bytes[2 * k + 1]) {
            Some(v) => {
                out.push(v);
                assert(chunks_parse(bytes@, k + 1)) by {
                    assert forall|j: int| 0 <= j < k + 1 implies (#[trigger] hex_pair_value(
                        bytes@[2 * j],
                        bytes@[2 * j + 1],
                    )) is Some by {
                        if j < k {
                        }
                    }
                }
            },
            None => {
                assert(!chunks_parse(bytes@, n as int / 2)) by {
                    assert(hex_pair_value(bytes@[2 * k as int], bytes@[2 * k as int + 1]) is None);
                }
                return Err("invalid hex: invalid digit found in string".to_owned());
            },
        }
        k += 1;
    }
    Ok(out)
}

// ---------------------------------------------------------------------------
// Round trip
// ---------------------------------------------------------------------------

proof fn lemma_hex_encode_len_ascii(b: Seq<u8>)
    ensures
        hex_encode_spec(b).len() == 2 * b.len(),
        is_ascii_chars(hex_encode_spec(b)),
        forall|j: int|
            0 <= j < b.len() ==> #[trigger] hex_encode_spec(b)[2 * j] == nibble_char(b[j] / 16)
                && hex_encode_spec(b)[2 * j + 1] == nibble_char(b[j] % 16),
    decreases b.len(),
{
    if b.len() > 0 {
        let p = b.drop_last();
        lemma_hex_encode_len_ascii(p);
        let e = hex_encode_spec(b);
        assert forall|j: int| 0 <= j < b.len() implies #[trigger] e[2 * j] == nibble_char(
            b[j] / 16,
        ) && e[2 * j + 1] == nibble_char(b[j] % 16) by {
            if j < p.len() {
                assert(p[j] == b[j]);
                assert(hex_encode_spec(p)[2 * j] == nibble_char(p[j] / 16));
            }
        }
        assert forall|i: int| 0 <= i < e.len() implies '\0' <= #[trigger] e[i] <= '\u{7f}' by {
            if i < 2 * p.len() {
                assert(e[i] == hex_encode_spec(p)[i]);
            }
        }
    }
}

proof fn lemma_nibble_roundtrip(h: u8, l: u8)
    requires
        h < 16,
        l < 16,
    ensures
        hex_pair_value(nibble_char(h) as u8, nibble_char(l) as u8) == Some((h * 16 + l) as u8),
{
}

/// Decoding what `hex_encode` produced gives back the encoded bytes, and
/// never slices a character apart.
pub proof fn lemma_hex_roundtrip(b: Seq<u8>)
    ensures
        hex_decode_slices_whole_chars(encode_utf8(hex_encode_spec(b))),
        hex_decode_outcome(encode_utf8(hex_encode_spec(b))) == HexOutcome::Decoded(b),
{
    let chars = hex_encode_spec(b);
    lemma_hex_encode_len_ascii(b);
    is_ascii_chars_encode_utf8(chars);
    encode_utf8_valid_utf8(chars);
    let bytes = encode_utf8(chars);
    assert(bytes.len() == 2 * b.len());
    assert forall|j: int| 0 <= j < b.len() implies #[trigger] hex_pair_value(
        bytes[2 * j],
        bytes[2 * j + 1],
    ) == Some(b[j]) by {
        assert(bytes[2 * j] == chars[2 * j] as u8);
        assert(bytes[2 * j + 1] == chars[2 * j + 1] as u8);
        lemma_nibble_roundtrip(b[j] / 16, b[j] % 16);
    }
    assert(chunks_parse(bytes, bytes.len() as int / 2));
    assert forall|k: nat| k <= b.len() implies #[trigger] chunk_values(bytes, k) == b.take(
        k as int,
    ) by {
        lemma_chunk_values_prefix(bytes, b, k);
    }
    assert(b.take(b.len() as int) == b);
    assert forall|k: int|
        0 <= k < bytes.len() / 2 && chunks_parse(bytes, k) implies is_char_boundary(bytes, 2 * k)
        && is_char_boundary(bytes, 2 * k + 2) by {
        lemma_ascii_boundary(bytes, chars, 2 * k);
        lemma_ascii_boundary(bytes, chars, 2 * k + 2);
    }
}

proof fn lemma_chunk_values_prefix(bytes: Seq<u8>, b: Seq<u8>, k: nat)
    requires
        k <= b.len(),
        bytes.len() == 2 * b.len(),
        forall|j: int| 0 <= j < b.len() ==> #[trigger] hex_pair_value(bytes[2 * j], bytes[2 * j + 1])
            == Some(b[j]),
    ensures
        chunk_values(bytes, k) == b.take(k as int),
    decreases k,
{
    if k > 0 {
        lemma_chunk_values_prefix(bytes, b, (k - 1) as nat);
        assert(hex_pair_value(bytes[2 * (k - 1)], bytes[2 * (k - 1) + 1]) == Some(b[k - 1]));
        assert(b.take(k as int) == b.take(k - 1).push(b[k - 1]));
    }
}

proof fn lemma_ascii_boundary(bytes: Seq<u8>, chars: Seq<char>, i: int)
    requires
        bytes == encode_utf8(chars),
        is_ascii_chars(chars),
        0 <= i <= bytes.len(),
    ensures
        is_char_boundary(bytes, i),
{
    is_ascii_chars_encode_utf8(chars);
    encode_utf8_valid_utf8(chars);
    if i == bytes.len() {
        is_char_boundary_start_end_of_seq(bytes);
    } else {
        assert(bytes[i] == chars[i] as u8);
        is_char_boundary_iff_not_is_continuation_byte(bytes, i);
    }
}

} // verus!
