use hanko_orders::order::Timestamp;
use hanko_orders::signature::{
    parse_stripe_signature_header, verify_stripe_signature_at, SignatureError,
};
use hmac::{Hmac, Mac};
use sha2::Sha256;

const PAYLOAD: &[u8] = br#"{"id":"evt_1","type":"payment_intent.succeeded","data":{"object":{"id":"pi_1","metadata":{"order_id":"order_1"}}}}"#;

fn sign(secret: &str, timestamp: i64, payload: &[u8]) -> String {
    let mut mac = Hmac::<Sha256>::new_from_slice(secret.as_bytes()).expect("valid secret");
    mac.update(format!("{timestamp}.").as_bytes());
    mac.update(payload);
    hex::encode(mac.finalize().into_bytes())
}

fn at(seconds: i64) -> Timestamp {
    Timestamp { seconds, nanos: 0 }
}

#[test]
fn verify_stripe_signature_accepts_valid_signature() {
    let payload = PAYLOAD;
    let secret = "whsec_test";
    let now = chrono::DateTime::from_timestamp(1_770_638_400, 0).expect("valid timestamp");
    let timestamp = now.timestamp();

    let signed_payload = format!("{timestamp}.{}", String::from_utf8_lossy(payload));
    let mut mac = Hmac::<Sha256>::new_from_slice(secret.as_bytes()).expect("valid secret");
    mac.update(signed_payload.as_bytes());
    let signature = hex::encode(mac.finalize().into_bytes());
    let header = format!("t={timestamp},v1={signature}");
    let now = Timestamp { seconds: now.timestamp(), nanos: now.timestamp_subsec_nanos() };

    assert!(verify_stripe_signature_at(payload, &header, secret, now).is_ok());
    assert!(verify_stripe_signature_at(payload, &header, "wrong", now).is_err());
}

#[test]
fn signature_older_than_tolerance_is_rejected() {
    let t = 1_770_638_400;
    let header = format!("t={t},v1={}", sign("whsec_test", t, PAYLOAD));
    assert_eq!(
        verify_stripe_signature_at(PAYLOAD, &header, "whsec_test", at(t + 301)),
        Err(SignatureError::OutsideTolerance)
    );
    assert_eq!(
        verify_stripe_signature_at(PAYLOAD, &header, "whsec_test", at(t - 301)),
        Err(SignatureError::OutsideTolerance)
    );
}

#[test]
fn signature_at_the_boundary_and_within_is_accepted() {
    let t = 1_770_638_400;
    let header = format!("t={t},v1={}", sign("whsec_test", t, PAYLOAD));
    assert_eq!(verify_stripe_signature_at(PAYLOAD, &header, "whsec_test", at(t + 300)), Ok(()));
    assert_eq!(verify_stripe_signature_at(PAYLOAD, &header, "whsec_test", at(t - 300)), Ok(()));
    assert_eq!(verify_stripe_signature_at(PAYLOAD, &header, "whsec_test", at(t + 12)), Ok(()));
    let late = Timestamp { seconds: t + 300, nanos: 999_999_999 };
    assert_eq!(verify_stripe_signature_at(PAYLOAD, &header, "whsec_test", late), Ok(()));
    let early = Timestamp { seconds: t - 301, nanos: 500_000_000 };
    assert_eq!(verify_stripe_signature_at(PAYLOAD, &header, "whsec_test", early), Ok(()));
}

#[test]
fn signature_over_tampered_body_is_rejected() {
    let t = 1_770_638_400;
    let header = format!("t={t},v1={}", sign("whsec_test", t, PAYLOAD));
    let mut tampered = PAYLOAD.to_vec();
    tampered[10] = b'2';
    assert_eq!(
        verify_stripe_signature_at(&tampered, &header, "whsec_test", at(t)),
        Err(SignatureError::Mismatch)
    );
}

#[test]
fn signature_in_upper_case_and_among_others_is_accepted() {
    let t = 1_770_638_400;
    let good = sign("whsec_test", t, PAYLOAD).to_uppercase();
    let header = format!(" t = {t} , v0=abc, v1=zz, v1=00ff , v1={good} ");
    assert_eq!(verify_stripe_signature_at(PAYLOAD, &header, "whsec_test", at(t)), Ok(()));
}

#[test]
fn blank_secret_switches_verification_off() {
    assert_eq!(verify_stripe_signature_at(PAYLOAD, "", "  ", at(0)), Ok(()));
    assert_eq!(verify_stripe_signature_at(PAYLOAD, "garbage", "", at(0)), Ok(()));
}

#[test]
fn signature_errors_name_what_is_missing() {
    let now = at(1_770_638_400);
    assert_eq!(
        verify_stripe_signature_at(PAYLOAD, "   ", "s", now),
        Err(SignatureError::MissingHeader)
    );
    assert_eq!(
        verify_stripe_signature_at(PAYLOAD, "v1=00", "s", now),
        Err(SignatureError::MissingTimestamp)
    );
    assert_eq!(
        verify_stripe_signature_at(PAYLOAD, "t=1770638400", "s", now),
        Err(SignatureError::MissingSignature)
    );
    assert_eq!(
        verify_stripe_signature_at(PAYLOAD, "t=12x,v1=00", "s", now),
        Err(SignatureError::InvalidTimestamp)
    );
    assert_eq!(
        verify_stripe_signature_at(PAYLOAD, "t=9223372036854775807,v1=00", "s", now),
        Err(SignatureError::InvalidTimestamp)
    );
    assert_eq!(
        verify_stripe_signature_at(PAYLOAD, "t=1770638400,v1=00", "s", now),
        Err(SignatureError::Mismatch)
    );
}

#[test]
fn parse_stripe_signature_header_reads_timestamp_and_candidates() {
    let parsed = parse_stripe_signature_header("t=42, v1=aa ,v1=bb,v2=cc,,v1=").unwrap();
    assert_eq!(parsed.0, 42);
    assert_eq!(parsed.1, vec!["aa".to_owned(), "bb".to_owned()]);
    let last_wins = parse_stripe_signature_header("t=1,t=-7,v1=aa").unwrap();
    assert_eq!(last_wins.0, -7);
    assert_eq!(
        parse_stripe_signature_header("t=+5,v1=a").map(|p| p.0),
        Ok(5)
    );
    assert_eq!(
        parse_stripe_signature_header("t=,v1=a"),
        Err(SignatureError::InvalidTimestamp)
    );
    assert_eq!(
        parse_stripe_signature_header("t=9223372036854775808,v1=a"),
        Err(SignatureError::InvalidTimestamp)
    );
    assert_eq!(
        parse_stripe_signature_header("t=-9223372036854775808,v1=a").map(|p| p.0),
        Ok(i64::MIN)
    );
    assert_eq!(
        parse_stripe_signature_header("v1=a,t=1,t=x"),
        Err(SignatureError::InvalidTimestamp)
    );
}

#[test]
fn signature_over_bytes_that_are_no_text_is_checked_on_the_raw_bytes() {
    let t = 1_770_638_400;
    let payload: &[u8] = b"{\"id\":\"\xff\xfe\"}";
    let header = format!("t={t},v1={}", sign("whsec_test", t, payload));
    assert_eq!(verify_stripe_signature_at(payload, &header, "whsec_test", at(t)), Ok(()));

    let lossy = format!("{t}.{}", String::from_utf8_lossy(payload));
    let mut mac = Hmac::<Sha256>::new_from_slice(b"whsec_test").expect("valid secret");
    mac.update(lossy.as_bytes());
    let header = format!("t={t},v1={}", hex::encode(mac.finalize().into_bytes()));
    assert_eq!(
        verify_stripe_signature_at(payload, &header, "whsec_test", at(t)),
        Err(SignatureError::Mismatch)
    );
    assert_eq!(
        verify_stripe_signature_at(b"", &format!("t={t},v1={}", sign("k", t, b"")), "k", at(t)),
        Ok(())
    );
}

#[test]
fn signature_with_negative_timestamp_is_signed_with_its_sign() {
    let t = -5;
    let header = format!("t={t},v1={}", sign("k", t, PAYLOAD));
    assert_eq!(verify_stripe_signature_at(PAYLOAD, &header, "k", at(-5)), Ok(()));
    assert_eq!(verify_stripe_signature_at(PAYLOAD, &header, "k", at(295)), Ok(()));
    assert_eq!(
        verify_stripe_signature_at(PAYLOAD, &header, "k", at(296)),
        Err(SignatureError::OutsideTolerance)
    );
    assert_eq!(
        verify_stripe_signature_at(PAYLOAD, &header, "k", at(i64::MAX)),
        Err(SignatureError::OutsideTolerance)
    );
}

#[test]
fn timestamp_must_be_one_that_the_calendar_reaches() {
    let verdict = |t: i64| {
        let header = format!("t={t},v1={}", sign("k", t, PAYLOAD));
        verify_stripe_signature_at(PAYLOAD, &header, "k", at(t))
    };
    let earliest = chrono::DateTime::<chrono::Utc>::MIN_UTC.timestamp();
    let latest = chrono::DateTime::<chrono::Utc>::MAX_UTC.timestamp();
    assert_eq!(earliest, -8_334_601_228_800);
    assert_eq!(latest, 8_210_266_876_799);
    assert_eq!(verdict(earliest), Ok(()));
    assert_eq!(verdict(latest), Ok(()));
    assert_eq!(verdict(earliest - 1), Err(SignatureError::InvalidTimestamp));
    assert_eq!(verdict(latest + 1), Err(SignatureError::InvalidTimestamp));
    assert_eq!(verdict(i64::MIN), Err(SignatureError::InvalidTimestamp));
}
