use vstd::prelude::*;
use vstd::string::StringExecFns;
use vstd::utf8::encode_utf8;
use crate::crypto::{
    bytes_equal, chrono_represents, hex_bytes, hex_decode, hmac_sha256, hmac_sha256_tag, is_hex,
    timestamp_is_representable,
};
use crate::number::{decimal_chars, decimal_text, parse_i64, parsed_i64};
use crate::order::Timestamp;
use crate::text::{
    chars_of, copy_range, find_char, first_index, is_blank, pieces_view, split_chars, split_on,
    strings_view, text_of, trim, trim_chars, trimmed,
};

verus! {

/// Why a webhook signature was refused.
#[derive(Clone, Copy, Debug, PartialEq, Eq, Structural)]
pub enum SignatureError {
    /// The signature header is absent or blank.
    MissingHeader,
    /// A `t=` element is no integer, or names an instant that cannot be represented.
    InvalidTimestamp,
    /// The header has no `t=` element.
    MissingTimestamp,
    /// The header has no `v1=` element with a value.
    MissingSignature,
    /// The timestamp is more than the tolerance away from now.
    OutsideTolerance,
    /// No `v1` value is the tag of the signed payload.
    Mismatch,
}

/// The number of seconds that a signature's timestamp may differ from now.
pub const STRIPE_SIGNATURE_TOLERANCE_SECONDS: i64 = 300;

/// What has been read of a signature header so far.
pub struct HeaderState {
    pub timestamp: Option<i64>,
    pub signatures: Seq<Seq<char>>,
}

/// The key of a `key=value` element: what stands before the first `=`, trimmed.
pub open spec fn element_key(element: Seq<char>) -> Seq<char> {
    trimmed(element.subrange(0, first_index(element, '=')))
}

/// The value of a `key=value` element: what stands after the first `=`,
/// trimmed; empty where there is no `=`.
pub open spec fn element_value(element: Seq<char>) -> Seq<char> {
    let i = first_index(element, '=');
    if i < element.len() {
        trimmed(element.subrange(i + 1, element.len() as int))
    } else {
        Seq::<char>::empty()
    }
}

/// Reads one comma-separated piece of the header into `state`. `None` when
/// the piece is a `t=` element whose value is no integer.
pub open spec fn header_step(state: HeaderState, piece: Seq<char>) -> Option<HeaderState> {
    let element = trimmed(piece);
    if element.len() == 0 {
        Some(state)
    } else if element_key(element) == "t"@ {
        match parsed_i64(element_value(element)) {
            Some(t) => Some(HeaderState { timestamp: Some(t), ..state }),
            None => None,
        }
    } else if element_key(element) == "v1"@ && element_value(element).len() > 0 {
        Some(HeaderState { signatures: state.signatures.push(element_value(element)), ..state })
    } else {
        Some(state)
    }
}

/// Reads the first `count` pieces in order.
pub open spec fn header_fold(pieces: Seq<Seq<char>>, count: int) -> Option<HeaderState>
    decreases count,
{
    if count <= 0 {
        Some(HeaderState { timestamp: None, signatures: Seq::empty() })
    } else {
        match header_fold(pieces, count - 1) {
            Some(state) => header_step(state, pieces[count - 1]),
            None => None,
        }
    }
}

/// The timestamp and the `v1` values of a signature header
/// `t=<seconds>,v1=<hex>[,v1=<hex>...]`. Of several `t=` elements the last
/// counts; elements with other keys are passed over.
pub open spec fn parsed_signature_header(value: Seq<char>) -> Result<
    (i64, Seq<Seq<char>>),
    SignatureError,
> {
    let pieces = split_on(value, ',');
    match header_fold(pieces, pieces.len() as int) {
        None => Err(SignatureError::InvalidTimestamp),
        Some(state) => match state.timestamp {
            None => Err(SignatureError::MissingTimestamp),
            Some(t) => if state.signatures.len() == 0 {
                Err(SignatureError::MissingSignature)
            } else {
                Ok((t, state.signatures))
            },
        },
    }
}

/// Reads a signature header.
pub fn parse_stripe_signature_header(value: &str) -> (r: Result<
    (i64, Vec<String>),
    SignatureError,
>)
    ensures
        match r {
            Ok((t, signatures)) => parsed_signature_header(value@) == Ok::<
                (i64, Seq<Seq<char>>),
                SignatureError,
            >((t, strings_view(signatures@))),
            Err(e) => parsed_signature_header(value@) == Err::<
                (i64, Seq<Seq<char>>),
                SignatureError,
            >(e),
        },
{
    let chars: Vec<char> = chars_of(value);
    let pieces: Vec<Vec<char>> = split_chars(&chars, ',');
    let mut timestamp: Option<i64> = None;
    let mut signatures: Vec<String> = Vec::new();
    let n: usize = pieces.len();
    let mut k: usize = 0;
    assert(pieces_view(pieces@).len() == n);
    assert(strings_view(signatures@) =~= Seq::<Seq<char>>::empty());
    while k < n
        invariant
            k <= n,
            n == pieces@.len(),
            pieces_view(pieces@) == split_on(value@, ','),
            header_fold(pieces_view(pieces@), k as int) == Some(
                HeaderState { timestamp, signatures: strings_view(signatures@) },
            ),
        decreases n - k,
    {
        assert(pieces_view(pieces@)[k as int] == pieces@[k as int]@);
        let element: Vec<char> = trim_chars(&pieces[k]);
        if element.len() > 0 {
            let i: usize = find_char(&element, 0, '=');
            assert(element@.subrange(0, element@.len() as int) =~= element@);
            let key: Vec<char> = trim_chars(&copy_range(&element, 0, i));
            let val: Vec<char> = if i < element.len() {
                trim_chars(&copy_range(&element, i + 1, element.len()))
            } else {
                Vec::new()
            };
            assert(key@ == element_key(element@));
            assert(val@ =~= element_value(element@));
            proof {
                reveal_strlit("t");
                reveal_strlit("v1");
            }
            if key.len() == 1 && key[0] == 't' {
                assert(key@ =~= "t"@);
                match parse_i64(&val) {
                    Some(t) => {
                        timestamp = Some(t);
                    },
                    None => {
                        proof {
                            lemma_header_fold_stays_none(
                                pieces_view(pieces@),
                                k as int + 1,
                                n as int,
                            );
                        }
                        return Err(SignatureError::InvalidTimestamp);
                    },
                }
            } else if key.len() == 2 && key[0] == 'v' && key[1] == '1' && val.len() > 0 {
                assert(key@ =~= "v1"@);
                let ghost before = strings_view(signatures@);
                signatures.push(text_of(&val));
                assert(strings_view(signatures@) =~= before.push(val@));
            } else {
                assert(key@ != "t"@);
                assert(!(key@ == "v1"@ && val@.len() > 0)) by {
                    if key@ == "v1"@ {
                        assert(key@.len() == 2);
                        assert(key@[0] == 'v');
                        assert(key@[1] == '1');
                    }
                }
            }
        }
        k += 1;
    }
    match timestamp {
        None => Err(SignatureError::MissingTimestamp),
        Some(t) => {
            if signatures.len() == 0 {
                assert(strings_view(signatures@).len() == 0);
                Err(SignatureError::MissingSignature)
            } else {
                assert(strings_view(signatures@).len() > 0);
                Ok((t, signatures))
            }
        },
    }
}

/// Once a piece has been refused, reading further pieces changes nothing.
pub proof fn lemma_header_fold_stays_none(pieces: Seq<Seq<char>>, from: int, to: int)
    requires
        0 <= from <= to,
        header_fold(pieces, from) is None,
    ensures
        header_fold(pieces, to) is None,
    decreases to - from,
{
    if from < to {
        lemma_header_fold_stays_none(pieces, from, to - 1);
    }
}

/// The whole seconds from a signature's timestamp `t` to `now`, rounded
/// towards zero.
pub open spec fn signature_age(now: Timestamp, t: i64) -> int {
    let whole = now.seconds - t;
    if whole < 0 && now.nanos > 0 {
        whole + 1
    } else {
        whole
    }
}

/// Whether a signature made at `t` is within the tolerance at `now`.
pub open spec fn within_tolerance(now: Timestamp, t: i64) -> bool {
    -STRIPE_SIGNATURE_TOLERANCE_SECONDS <= signature_age(now, t)
        <= STRIPE_SIGNATURE_TOLERANCE_SECONDS
}

/// The bytes that are signed: the timestamp in decimal, a full stop, then
/// the body, byte for byte as it came.
pub open spec fn signed_message(t: i64, payload: Seq<u8>) -> Seq<u8> {
    encode_utf8(decimal_text(t as int) + "."@) + payload
}

/// The tag that a signature must carry.
pub open spec fn expected_tag(secret: Seq<char>, t: i64, payload: Seq<u8>) -> Seq<u8> {
    hmac_sha256(encode_utf8(secret), signed_message(t, payload))
}

/// Whether a `v1` value is hexadecimal text for `tag`.
pub open spec fn candidate_matches(candidate: Seq<char>, tag: Seq<u8>) -> bool {
    is_hex(encode_utf8(candidate)) && hex_bytes(encode_utf8(candidate)) == tag
}

/// Whether one of the `v1` values is hexadecimal text for `tag`.
pub open spec fn some_candidate_matches(candidates: Seq<Seq<char>>, tag: Seq<u8>) -> bool {
    exists|i: int| 0 <= i < candidates.len() && candidate_matches(#[trigger] candidates[i], tag)
}

/// The verdict on a webhook: accepted, or why not. A blank secret switches
/// the verification off.
pub open spec fn signature_verdict(
    payload: Seq<u8>,
    header: Seq<char>,
    secret: Seq<char>,
    now: Timestamp,
) -> Result<(), SignatureError> {
    if is_blank(secret) {
        Ok(())
    } else if is_blank(header) {
        Err(SignatureError::MissingHeader)
    } else {
        match parsed_signature_header(trimmed(header)) {
            Err(e) => Err(e),
            Ok((t, candidates)) => if !chrono_represents(t) {
                Err(SignatureError::InvalidTimestamp)
            } else if !within_tolerance(now, t) {
                Err(SignatureError::OutsideTolerance)
            } else if some_candidate_matches(candidates, expected_tag(secret, t, payload)) {
                Ok(())
            } else {
                Err(SignatureError::Mismatch)
            },
        }
    }
}

/// Checks the signature header of a webhook against its body and the shared
/// secret, as of `now`.
pub fn verify_stripe_signature_at(
    payload: &[u8],
    signature_header: &str,
    secret: &str,
    now: Timestamp,
) -> (r: Result<(), SignatureError>)
    ensures
        r == signature_verdict(payload@, signature_header@, secret@, now),
{
    if trim(secret).is_empty() {
        return Ok(());
    }
    let header = trim(signature_header);
    if header.is_empty() {
        return Err(SignatureError::MissingHeader);
    }
    let (t, candidates) = match parse_stripe_signature_header(header) {
        Ok(parsed) => parsed,
        Err(e) => {
            return Err(e);
        },
    };
    if !timestamp_is_representable(t) {
        return Err(SignatureError::InvalidTimestamp);
    }
    let whole: i128 = now.seconds as i128 - t as i128;
    let age: i128 = if whole < 0 && now.nanos > 0 {
        whole + 1
    } else {
        whole
    };
    if age > STRIPE_SIGNATURE_TOLERANCE_SECONDS as i128 || age
        < -(STRIPE_SIGNATURE_TOLERANCE_SECONDS as i128) {
        return Err(SignatureError::OutsideTolerance);
    }
    let mut prefix: String = text_of(&decimal_chars(t));
    prefix.append(".");
    let mut signed: Vec<u8> = prefix.as_str().as_bytes_vec();
    let n: usize = payload.len();
    let mut i: usize = 0;
    while i < n
        invariant
            i <= n,
            n == payload@.len(),
            signed@ == encode_utf8(prefix@) + payload@.subrange(0, i as int),
        decreases n - i,
    {
        signed.push(payload[i]);
        assert(signed@ =~= encode_utf8(prefix@) + payload@.subrange(0, i as int + 1));
        i += 1;
    }
    assert(payload@.subrange(0, n as int) =~= payload@);
    let tag: Vec<u8> = match hmac_sha256_tag(secret.as_bytes(), signed.as_slice()) {
        Some(tag) => tag,
        None => {
            return Err(SignatureError::Mismatch);
        },
    };
    assert(tag@ == expected_tag(secret@, t, payload@));
    let ghost verdict = signature_verdict(payload@, signature_header@, secret@, now);
    assert(verdict == if some_candidate_matches(strings_view(candidates@), tag@) {
        Ok::<(), SignatureError>(())
    } else {
        Err::<(), SignatureError>(SignatureError::Mismatch)
    });
    let n: usize = candidates.len();
    let mut i: usize = 0;
    while i < n
        invariant
            i <= n,
            n == candidates@.len(),
            verdict == signature_verdict(payload@, signature_header@, secret@, now),
            verdict == if some_candidate_matches(strings_view(candidates@), tag@) {
                Ok::<(), SignatureError>(())
            } else {
                Err::<(), SignatureError>(SignatureError::Mismatch)
            },
            forall|j: int|
                0 <= j < i ==> !candidate_matches(#[trigger] strings_view(candidates@)[j], tag@),
        decreases n - i,
    {
        assert(strings_view(candidates@)[i as int] == candidates@[i as int]@);
        match hex_decode(candidates[i].as_str()) {
            Some(decoded) => {
                if bytes_equal(&decoded, &tag) {
                    return Ok(());
                }
            },
            None => {},
        }
        i += 1;
    }
    Err(SignatureError::Mismatch)
}

/// A signature whose timestamp is more than the tolerance away from now is
/// refused, whatever it signs.
pub proof fn lemma_stale_signature_is_refused(
    payload: Seq<u8>,
    header: Seq<char>,
    secret: Seq<char>,
    now: Timestamp,
    t: i64,
    candidates: Seq<Seq<char>>,
)
    requires
        !is_blank(secret),
        !is_blank(header),
        parsed_signature_header(trimmed(header)) == Ok::<(i64, Seq<Seq<char>>), SignatureError>(
            (t, candidates),
        ),
        !within_tolerance(now, t),
    ensures
        signature_verdict(payload, header, secret, now) is Err,
{
}

/// A header that carries the tag of the payload under the secret, with a
/// timestamp within the tolerance (the boundary included), is accepted.
pub proof fn lemma_fresh_signature_is_accepted(
    payload: Seq<u8>,
    header: Seq<char>,
    secret: Seq<char>,
    now: Timestamp,
    t: i64,
    candidates: Seq<Seq<char>>,
)
    requires
        parsed_signature_header(trimmed(header)) == Ok::<(i64, Seq<Seq<char>>), SignatureError>(
            (t, candidates),
        ),
        chrono_represents(t),
        within_tolerance(now, t),
        some_candidate_matches(candidates, expected_tag(secret, t, payload)),
    ensures
        signature_verdict(payload, header, secret, now) is Ok,
{
    if !is_blank(secret) && is_blank(header) {
        lemma_blank_header_has_no_timestamp(trimmed(header));
    }
}

/// A signature is accepted only for the payload whose tag it carries: where
/// no `v1` value is the tag of the payload at hand, the webhook is refused.
pub proof fn lemma_foreign_signature_is_refused(
    payload: Seq<u8>,
    header: Seq<char>,
    secret: Seq<char>,
    now: Timestamp,
    t: i64,
    candidates: Seq<Seq<char>>,
)
    requires
        !is_blank(secret),
        !is_blank(header),
        parsed_signature_header(trimmed(header)) == Ok::<(i64, Seq<Seq<char>>), SignatureError>(
            (t, candidates),
        ),
        !some_candidate_matches(candidates, expected_tag(secret, t, payload)),
    ensures
        signature_verdict(payload, header, secret, now) is Err,
{
}

/// An empty header has no timestamp.
pub proof fn lemma_blank_header_has_no_timestamp(header: Seq<char>)
    requires
        header.len() == 0,
    ensures
        parsed_signature_header(header) == Err::<(i64, Seq<Seq<char>>), SignatureError>(
            SignatureError::MissingTimestamp,
        ),
{
    let pieces = split_on(header, ',');
    assert(pieces =~= seq![header]);
    assert(header_fold(pieces, 0) == Some(
        HeaderState { timestamp: None, signatures: Seq::empty() },
    ));
    assert(trimmed(header) =~= header);
    assert(header_fold(pieces, 1) == header_step(
        HeaderState { timestamp: None, signatures: Seq::empty() },
        pieces[0],
    ));
}

/// A header that carries the tag of the payload under the secret, written
/// as `hex::encode` writes it, with a timestamp within the tolerance (the
/// boundary included), is accepted.
pub proof fn lemma_correct_signature_is_accepted(
    payload: Seq<u8>,
    header: Seq<char>,
    secret: Seq<char>,
    now: Timestamp,
    t: i64,
    candidates: Seq<Seq<char>>,
)
    requires
        parsed_signature_header(trimmed(header)) == Ok::<(i64, Seq<Seq<char>>), SignatureError>(
            (t, candidates),
        ),
        chrono_represents(t),
        within_tolerance(now, t),
        candidates.contains(crate::crypto::hex_encoded(expected_tag(secret, t, payload))),
    ensures
        signature_verdict(payload, header, secret, now) is Ok,
{
    let tag = expected_tag(secret, t, payload);
    crate::crypto::lemma_hex_round_trip(tag);
    let i = choose|i: int| 0 <= i < candidates.len() && candidates[i] == crate::crypto::hex_encoded(tag);
    assert(candidate_matches(candidates[i], tag));
    lemma_fresh_signature_is_accepted(payload, header, secret, now, t, candidates);
}

} // verus!
