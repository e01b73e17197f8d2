use vstd::prelude::*;
use vstd::utf8::encode_utf8;
use hmac::{Hmac, Mac};
use sha2::{Digest, Sha256};

verus! {

/// The SHA-256 digest of a message.
pub uninterp spec fn sha256(message: Seq<u8>) -> Seq<u8>;

/// The HMAC-SHA256 tag of a message under a key.
pub uninterp spec fn hmac_sha256(key: Seq<u8>, message: Seq<u8>) -> Seq<u8>;

/// The seconds of the earliest instant that chrono represents, the first
/// second of the year -262143.
pub const EARLIEST_SECONDS: i64 = -8_334_601_228_800;

/// The seconds of the latest instant that chrono represents, the last second
/// of the year 262142.
pub const LATEST_SECONDS: i64 = 8_210_266_876_799;

/// Whether chrono can represent the instant `seconds` after the Unix epoch:
/// it lies between the earliest and the latest instant.
pub open spec fn chrono_represents(seconds: i64) -> bool {
    EARLIEST_SECONDS <= seconds <= LATEST_SECONDS
}

/// The lower-case hexadecimal digit for a value below sixteen.
pub open spec fn hex_char(nibble: int) -> char {
    if nibble == 0 {
        '0'
    } else if nibble == 1 {
        '1'
    } else if nibble == 2 {
        '2'
    } else if nibble == 3 {
        '3'
    } else if nibble == 4 {
        '4'
    } else if nibble == 5 {
        '5'
    } else if nibble == 6 {
        '6'
    } else if nibble == 7 {
        '7'
    } else if nibble == 8 {
        '8'
    } else if nibble == 9 {
        '9'
    } else if nibble == 10 {
        'a'
    } else if nibble == 11 {
        'b'
    } else if nibble == 12 {
        'c'
    } else if nibble == 13 {
        'd'
    } else if nibble == 14 {
        'e'
    } else {
        'f'
    }
}

/// Lower-case hexadecimal text: two digits for each byte, the high half first.
pub open spec fn hex_encoded(data: Seq<u8>) -> Seq<char> {
    Seq::new(
        2 * data.len(),
        |i: int|
            if i % 2 == 0 {
                hex_char(data[i / 2] as int / 16)
            } else {
                hex_char(data[i / 2] as int % 16)
            },
    )
}

/// The value of a hexadecimal digit given as an ASCII byte, in either case.
pub open spec fn hex_value(b: u8) -> Option<int> {
    if 0x30 <= b && b <= 0x39 {
        Some(b - 0x30)
    } else if 0x41 <= b && b <= 0x46 {
        Some(b - 0x41 + 10)
    } else if 0x61 <= b && b <= 0x66 {
        Some(b - 0x61 + 10)
    } else {
        None
    }
}

/// Whether `text` is hexadecimal text for whole bytes.
pub open spec fn is_hex(text: Seq<u8>) -> bool {
    &&& text.len() % 2 == 0
    &&& forall|i: int| 0 <= i < text.len() ==> (#[trigger] hex_value(text[i])) is Some
}

/// The bytes that hexadecimal text writes.
pub open spec fn hex_bytes(text: Seq<u8>) -> Seq<u8> {
    Seq::new(
        text.len() / 2,
        |i: int| (hex_value(text[2 * i]).unwrap() * 16 + hex_value(text[2 * i + 1]).unwrap()) as u8,
    )
}

/// `Sha256::digest` of the sha2 crate. Trusted: the result is the SHA-256
/// digest of `message`.
#[verifier::external_body]
pub(crate) fn sha256_digest(message: &[u8]) -> (r: Vec<u8>)
    ensures
        r@ == sha256(message@),
{
    Sha256::digest(message).to_vec()
}

/// HMAC-SHA256 as the hmac crate computes it: `new_from_slice`, `update`,
/// `finalize`. Trusted: keying accepts a key of any length, and the tag is a
/// function of key and message.
#[verifier::external_body]
pub(crate) fn hmac_sha256_tag(key: &[u8], message: &[u8]) -> (r: Option<Vec<u8>>)
    ensures
        r is Some,
        r matches Some(tag) ==> tag@ == hmac_sha256(key@, message@),
{
    let mut mac = Hmac::<Sha256>::new_from_slice(key).ok()?;
    mac.update(message);
    Some(mac.finalize().into_bytes().to_vec())
}

/// `hex::encode`. Trusted: two lower-case digits for each byte.
#[verifier::external_body]
pub(crate) fn hex_encode(data: &[u8]) -> (r: String)
    ensures
        r@ == hex_encoded(data@),
{
    hex::encode(data)
}

/// `hex::decode`. Trusted: text of even length made of hexadecimal digits of
/// either case decodes to its bytes, and any other text is refused.
#[verifier::external_body]
pub(crate) fn hex_decode(text: &str) -> (r: Option<Vec<u8>>)
    ensures
        r is Some <==> is_hex(encode_utf8(text@)),
        r matches Some(bytes) ==> bytes@ == hex_bytes(encode_utf8(text@)),
{
    hex::decode(text).ok()
}

/// `DateTime::<Utc>::from_timestamp` of chrono, asked only whether it
/// accepts `seconds`. Trusted: it accepts the seconds of every date from
/// the first day of the year -262143 to the last day of the year 262142,
/// and no others.
#[verifier::external_body]
pub(crate) fn timestamp_is_representable(seconds: i64) -> (r: bool)
    ensures
        r == chrono_represents(seconds),
{
    chrono::DateTime::<chrono::Utc>::from_timestamp(seconds, 0).is_some()
}

/// The bytes of a version-4 UUID of the uuid crate, `Uuid::new_v4`.
/// Trusted: there are sixteen of them. Which ones is drawn at random, and
/// nothing is claimed of them.
#[verifier::external_body]
pub(crate) fn random_uuid_bytes() -> (r: Vec<u8>)
    ensures
        r@.len() == 16,
{
    uuid::Uuid::new_v4().as_bytes().to_vec()
}

/// Whether two byte strings are equal, found without stopping at the first
/// difference.
pub fn bytes_equal(a: &Vec<u8>, b: &Vec<u8>) -> (r: bool)
    ensures
        r == (a@ == b@),
{
    if a.len() != b.len() {
        return false;
    }
    let n: usize = a.len();
    let mut diff: u8 = 0;
    let mut i: usize = 0;
    while i < n
        invariant
            i <= n,
            n == a@.len(),
            n == b@.len(),
            diff == 0 <==> (forall|j: int| 0 <= j < i ==> a@[j] == b@[j]),
        decreases n - i,
    {
        let x: u8 = a[i];
        let y: u8 = b[i];
        let ghost before = diff;
        diff = diff | (x ^ y);
        proof {
            assert((before | (x ^ y)) == 0 <==> (before == 0 && x == y)) by (bit_vector);
            if diff != 0 && before == 0 {
                assert(a@[i as int] != b@[i as int]);
            }
        }
        i += 1;
    }
    proof {
        if diff == 0 {
            assert(a@ =~= b@);
        }
    }
    diff == 0
}

/// The hexadecimal text of bytes reads back as those bytes.
pub proof fn lemma_hex_round_trip(data: Seq<u8>)
    ensures
        is_hex(encode_utf8(hex_encoded(data))),
        hex_bytes(encode_utf8(hex_encoded(data))) == data,
{
    let text = hex_encoded(data);
    assert forall|i: int| 0 <= i < text.len() implies '\0' <= #[trigger] text[i] <= '\u{7f}' by {
        lemma_hex_char(data[i / 2] as int / 16);
        lemma_hex_char(data[i / 2] as int % 16);
    }
    vstd::utf8::is_ascii_chars_encode_utf8(text);
    let bytes = encode_utf8(text);
    assert forall|i: int| 0 <= i < bytes.len() implies (#[trigger] hex_value(bytes[i])) is Some by {
        lemma_hex_char(data[i / 2] as int / 16);
        lemma_hex_char(data[i / 2] as int % 16);
        assert(bytes[i] == text[i] as u8);
    }
    assert forall|k: int| 0 <= k < data.len() implies hex_bytes(bytes)[k] == data[k] by {
        lemma_hex_char(data[k] as int / 16);
        lemma_hex_char(data[k] as int % 16);
        assert(bytes[2 * k] == text[2 * k] as u8);
        assert(bytes[2 * k + 1] == text[2 * k + 1] as u8);
        assert((2 * k) / 2 == k && (2 * k + 1) / 2 == k);
        assert((2 * k) % 2 == 0 && (2 * k + 1) % 2 == 1);
    }
    assert(hex_bytes(bytes) =~= data);
}

/// A hexadecimal digit is an ASCII character whose value is the half-byte
/// that it was written for.
pub proof fn lemma_hex_char(nibble: int)
    requires
        0 <= nibble < 16,
    ensures
        '\0' <= hex_char(nibble) <= '\u{7f}',
        ('0' <= hex_char(nibble) <= '9') || ('a' <= hex_char(nibble) <= 'f'),
        hex_value(hex_char(nibble) as u8) == Some(nibble),
{
}

} // verus!
