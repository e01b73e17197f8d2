use hanko_orders::config::{default_public_config, PublicConfig};
use hanko_orders::creation::{
    check_locales, check_reference, create_order_status, created_order_result,
    hash_order_request, idempotency_id, new_idempotency_record, new_order_number,
    order_created_event, order_number, plan_order_creation, price_order, replayed_order_result,
    resolve_record_conflict, submit_order, try_idempotent_replay, CatalogEntry,
    CreateOrderResult,
    CreationPlan, Pricing, StoreError, StoredOrder,
};
use hanko_orders::order::Timestamp;
use hanko_orders::request::{
    normalize_create_order_input, validate_create_order_request, CreateOrderContactRequest,
    CreateOrderInput, CreateOrderRequest, CreateOrderSealRequest, CreateOrderShippingRequest,
    ValidationError,
};
use hanko_orders::webhook::{apply_stripe_event, PaymentOrder, StripeWebhookEvent};
use sha2::{Digest, Sha256};

fn request() -> CreateOrderRequest {
    CreateOrderRequest {
        channel: " Web ".to_owned(),
        locale: "JA".to_owned(),
        idempotency_key: " demo_key_123 ".to_owned(),
        terms_agreed: true,
        seal: CreateOrderSealRequest {
            line1: " 山 ".to_owned(),
            line2: "田".to_owned(),
            shape: "Square".to_owned(),
            font_key: "zen_maru_gothic".to_owned(),
        },
        material_key: "boxwood".to_owned(),
        shipping: CreateOrderShippingRequest {
            country_code: "jp".to_owned(),
            recipient_name: "山田 \"太郎\"".to_owned(),
            phone: "09000001111".to_owned(),
            postal_code: "1000001".to_owned(),
            state: "Tokyo".to_owned(),
            city: "Chiyoda".to_owned(),
            address_line1: "1-1-1".to_owned(),
            address_line2: "".to_owned(),
        },
        contact: CreateOrderContactRequest {
            email: " taro@example.com ".to_owned(),
            preferred_locale: "ja".to_owned(),
        },
    }
}

fn text(value: &str) -> serde_json::Value {
    serde_json::Value::String(value.to_owned())
}

fn reference_hash(input: &CreateOrderInput) -> String {
    let mut seal = serde_json::Map::new();
    seal.insert("line1".to_owned(), text(&input.seal.line1));
    seal.insert("line2".to_owned(), text(&input.seal.line2));
    seal.insert("shape".to_owned(), text(&input.seal.shape));
    seal.insert("font_key".to_owned(), text(&input.seal.font_key));
    let mut shipping = serde_json::Map::new();
    shipping.insert("country_code".to_owned(), text(&input.shipping.country_code));
    shipping.insert("recipient_name".to_owned(), text(&input.shipping.recipient_name));
    shipping.insert("phone".to_owned(), text(&input.shipping.phone));
    shipping.insert("postal_code".to_owned(), text(&input.shipping.postal_code));
    shipping.insert("state".to_owned(), text(&input.shipping.state));
    shipping.insert("city".to_owned(), text(&input.shipping.city));
    shipping.insert("address_line1".to_owned(), text(&input.shipping.address_line1));
    shipping.insert("address_line2".to_owned(), text(&input.shipping.address_line2));
    let mut contact = serde_json::Map::new();
    contact.insert("email".to_owned(), text(&input.contact.email));
    contact.insert("preferred_locale".to_owned(), text(&input.contact.preferred_locale));
    let mut root = serde_json::Map::new();
    root.insert("channel".to_owned(), text(&input.channel));
    root.insert("locale".to_owned(), text(&input.locale));
    root.insert("idempotency_key".to_owned(), text(&input.idempotency_key));
    root.insert("terms_agreed".to_owned(), serde_json::Value::Bool(input.terms_agreed));
    root.insert("seal".to_owned(), serde_json::Value::Object(seal));
    root.insert("material_key".to_owned(), text(&input.material_key));
    root.insert("shipping".to_owned(), serde_json::Value::Object(shipping));
    root.insert("contact".to_owned(), serde_json::Value::Object(contact));
    let payload = serde_json::to_vec(&serde_json::Value::Object(root)).unwrap();
    hex::encode(Sha256::digest(payload))
}

fn entry(exists: bool, is_active: Option<bool>, amount_jpy: i64) -> CatalogEntry {
    CatalogEntry { exists, is_active, amount_jpy }
}

fn active(amount_jpy: i64) -> CatalogEntry {
    entry(true, Some(true), amount_jpy)
}

#[test]
fn validate_create_order_request_rejects_seal_whitespace() {
    let request = CreateOrderRequest {
        channel: "web".to_owned(),
        locale: "ja".to_owned(),
        idempotency_key: "demo_key_123".to_owned(),
        terms_agreed: true,
        seal: CreateOrderSealRequest {
            line1: " ".to_owned(),
            line2: "".to_owned(),
            shape: "square".to_owned(),
            font_key: "zen_maru_gothic".to_owned(),
        },
        material_key: "boxwood".to_owned(),
        shipping: CreateOrderShippingRequest {
            country_code: "JP".to_owned(),
            recipient_name: " ".to_owned(),
            phone: "09000001111".to_owned(),
            postal_code: "1000001".to_owned(),
            state: "".to_owned(),
            city: "".to_owned(),
            address_line1: "1-1-1".to_owned(),
            address_line2: "".to_owned(),
        },
        contact: CreateOrderContactRequest {
            email: "taro@example.com".to_owned(),
            preferred_locale: "ja".to_owned(),
        },
    };

    assert!(validate_create_order_request(request).is_err());
}

#[test]
fn validate_create_order_request_accepts_valid_payload() {
    let request = CreateOrderRequest {
        channel: "web".to_owned(),
        locale: "ja".to_owned(),
        idempotency_key: "demo_key_123".to_owned(),
        terms_agreed: true,
        seal: CreateOrderSealRequest {
            line1: "".to_owned(),
            line2: "".to_owned(),
            shape: "square".to_owned(),
            font_key: "zen_maru_gothic".to_owned(),
        },
        material_key: "boxwood".to_owned(),
        shipping: CreateOrderShippingRequest {
            country_code: "jp".to_owned(),
            recipient_name: " ".to_owned(),
            phone: "09000001111".to_owned(),
            postal_code: "1000001".to_owned(),
            state: "".to_owned(),
            city: "".to_owned(),
            address_line1: "1-1-1".to_owned(),
            address_line2: "".to_owned(),
        },
        contact: CreateOrderContactRequest {
            email: "taro@example.com".to_owned(),
            preferred_locale: "ja".to_owned(),
        },
    };

    assert_eq!(
        validate_create_order_request(request).map(|input| input.shipping.country_code),
        Err(ValidationError::SealLine1Length)
    );
}

#[test]
fn validate_create_order_request_refuses_a_seal_of_more_than_two_characters() {
    let seal = |line1: &str, line2: &str| {
        let mut r = request();
        r.seal.line1 = line1.to_owned();
        r.seal.line2 = line2.to_owned();
        validate_create_order_request(r).map(|_| ())
    };
    assert_eq!(seal("AB", "CD"), Err(ValidationError::SealTotalLength));
    assert_eq!(seal("AB", "C"), Err(ValidationError::SealTotalLength));
    assert_eq!(seal("A", "BC"), Err(ValidationError::SealTotalLength));
    assert_eq!(seal("A", "BCD"), Err(ValidationError::SealLine2Length));
    assert_eq!(seal("ABC", ""), Err(ValidationError::SealLine1Length));
    assert_eq!(seal("", "AB"), Err(ValidationError::SealLine1Length));
    assert_eq!(seal("AB", ""), Ok(()));
    assert_eq!(seal(" A ", " B "), Ok(()));
    assert_eq!(seal("山", ""), Ok(()));
    assert_eq!(
        ValidationError::SealTotalLength.message(),
        "seal.line1 and seal.line2 must be 2 characters or fewer in total"
    );
}

#[test]
fn validate_create_order_request_normalizes_a_valid_payload() {
    let input = validate_create_order_request(request()).expect("request must be valid");
    assert_eq!(input.channel, "web");
    assert_eq!(input.locale, "ja");
    assert_eq!(input.idempotency_key, "demo_key_123");
    assert_eq!(input.seal.line1, "山");
    assert_eq!(input.seal.shape, "square");
    assert_eq!(input.shipping.country_code, "JP");
    assert_eq!(input.contact.email, "taro@example.com");
}

#[test]
fn validate_create_order_request_names_the_broken_rule() {
    let check = |change: fn(&mut CreateOrderRequest), expected: ValidationError| {
        let mut r = request();
        change(&mut r);
        assert_eq!(validate_create_order_request(r).map(|_| ()), Err(expected));
        assert!(!expected.message().is_empty());
    };
    check(|r| r.channel = "shop".to_owned(), ValidationError::Channel);
    check(|r| r.locale = "j".to_owned(), ValidationError::Locale);
    check(|r| r.locale = "ja-".to_owned(), ValidationError::Locale);
    check(|r| r.locale = "ja_JP".to_owned(), ValidationError::Locale);
    check(|r| r.idempotency_key = "short".to_owned(), ValidationError::IdempotencyKey);
    check(|r| r.idempotency_key = "has space 1".to_owned(), ValidationError::IdempotencyKey);
    check(|r| r.idempotency_key = "k".repeat(129), ValidationError::IdempotencyKey);
    check(|r| r.terms_agreed = false, ValidationError::TermsNotAgreed);
    check(|r| r.seal.line1 = "".to_owned(), ValidationError::SealLine1Length);
    check(|r| r.seal.line1 = "山田太".to_owned(), ValidationError::SealLine1Length);
    check(|r| r.seal.line2 = "a b".to_owned(), ValidationError::SealLine2Length);
    check(|r| r.seal.shape = "oval".to_owned(), ValidationError::Shape);
    check(|r| r.seal.font_key = " ".to_owned(), ValidationError::FontKey);
    check(|r| r.material_key = "".to_owned(), ValidationError::MaterialKey);
    check(|r| r.shipping.country_code = "JPN".to_owned(), ValidationError::CountryCode);
    check(|r| r.shipping.recipient_name = " ".to_owned(), ValidationError::RecipientName);
    check(|r| r.shipping.phone = "".to_owned(), ValidationError::Phone);
    check(|r| r.shipping.postal_code = "".to_owned(), ValidationError::PostalCode);
    check(|r| r.shipping.state = "".to_owned(), ValidationError::State);
    check(|r| r.shipping.city = "".to_owned(), ValidationError::City);
    check(|r| r.shipping.address_line1 = "".to_owned(), ValidationError::AddressLine1);
    check(|r| r.contact.email = " ".to_owned(), ValidationError::EmailRequired);
    check(|r| r.contact.email = "taro@example".to_owned(), ValidationError::EmailInvalid);
    check(|r| r.contact.preferred_locale = "Japanese".to_owned(), ValidationError::PreferredLocale);
}

#[test]
fn validate_create_order_request_accepts_the_bounds() {
    let accept = |change: fn(&mut CreateOrderRequest)| {
        let mut r = request();
        change(&mut r);
        assert!(validate_create_order_request(r).is_ok());
    };
    accept(|r| r.idempotency_key = "A-z_0-9x".to_owned());
    accept(|r| r.idempotency_key = "k".repeat(128));
    accept(|r| r.locale = "zh-hant-tw".to_owned());
    accept(|r| r.locale = "fil".to_owned());
    accept(|r| r.seal.line2 = "".to_owned());
    accept(|r| r.channel = "APP".to_owned());
    accept(|r| r.seal.shape = " ROUND ".to_owned());
}

#[test]
fn hash_order_request_is_the_digest_of_the_canonical_json() {
    let input = normalize_create_order_input(request());
    let hash = hash_order_request(&input);
    assert_eq!(hash.len(), 64);
    assert_eq!(hash, reference_hash(&input));
    assert_eq!(hash, hash_order_request(&normalize_create_order_input(request())));

    let mut other = request();
    other.shipping.address_line2 = "Room 2".to_owned();
    let other = normalize_create_order_input(other);
    assert_ne!(hash_order_request(&other), hash);
    assert_eq!(hash_order_request(&other), reference_hash(&other));

    let mut declined = request();
    declined.terms_agreed = false;
    declined.seal.line1 = "a\\b\n\u{1}".to_owned();
    assert_eq!(hash_order_request(&declined), reference_hash(&declined));
}

#[test]
fn idempotency_id_joins_channel_and_key() {
    assert_eq!(idempotency_id("web", "demo_key_123"), "web:demo_key_123");
}

#[test]
fn submitting_twice_creates_once_and_replays() {
    let cfg = default_public_config();
    let first =
        plan_order_creation(request(), &cfg, None, active(0), active(3_600), active(600)).unwrap();
    let (id, hash, pricing) = match first {
        CreationPlan::Create { idempotency_id, request_hash, pricing } => {
            (idempotency_id, request_hash, pricing)
        }
        other => panic!("unexpected plan: {other:?}"),
    };
    assert_eq!(id, "web:demo_key_123");
    assert_eq!(pricing.total_jpy, 4_200);
    let created = created_order_result("ord_1", "HF-20260209-0042", pricing);
    assert!(!created.idempotent_replay);
    assert_eq!(created.order_id, "ord_1");

    let record = new_idempotency_record(&hash, "ord_1");
    for _ in 0..3 {
        let again = plan_order_creation(
            request(),
            &cfg,
            Some(&record),
            entry(false, None, 0),
            entry(false, None, 0),
            entry(false, None, 0),
        )
        .unwrap();
        match again {
            CreationPlan::Replay { order_id } => {
                let stored = StoredOrder {
                    order_no: "HF-20260209-0042".to_owned(),
                    status: "paid".to_owned(),
                    payment_status: "paid".to_owned(),
                    fulfillment_status: "pending".to_owned(),
                    total_jpy: Some(4_200),
                    currency: "JPY".to_owned(),
                };
                let replayed = replayed_order_result(&order_id, &stored);
                assert!(replayed.idempotent_replay);
                assert_eq!(replayed.order_id, created.order_id);
                assert_eq!(replayed.status, "paid");
                assert_eq!(replayed.total_jpy, 4_200);
            }
            other => panic!("unexpected plan: {other:?}"),
        }
    }
}

#[test]
fn other_payload_under_a_used_key_conflicts() {
    let cfg = default_public_config();
    let hash = hash_order_request(&normalize_create_order_input(request()));
    let record = new_idempotency_record(&hash, "ord_1");
    let mut other = request();
    other.material_key = "titanium".to_owned();
    let plan =
        plan_order_creation(other, &cfg, Some(&record), active(0), active(3_600), active(600));
    assert!(matches!(plan, Err(StoreError::IdempotencyConflict)));
    assert_eq!(
        try_idempotent_replay(Some(&record), "another hash"),
        Err(StoreError::IdempotencyConflict)
    );
    assert_eq!(
        resolve_record_conflict(Some(&record), "another hash"),
        Err(StoreError::IdempotencyConflict)
    );
}

#[test]
fn replay_lookup_covers_every_case() {
    let record = new_idempotency_record("h", "ord_1");
    assert_eq!(try_idempotent_replay(None, "h"), Ok(None));
    assert_eq!(try_idempotent_replay(Some(&record), "h"), Ok(Some("ord_1".to_owned())));
    let broken = new_idempotency_record("h", "");
    assert_eq!(try_idempotent_replay(Some(&broken), "h"), Err(StoreError::Internal));
    assert_eq!(resolve_record_conflict(Some(&record), "h"), Ok("ord_1".to_owned()));
    assert_eq!(resolve_record_conflict(None, "h"), Err(StoreError::IdempotencyConflict));
    assert_eq!(resolve_record_conflict(Some(&broken), "h"), Err(StoreError::Internal));
}

#[test]
fn plan_refuses_what_the_store_cannot_serve() {
    let cfg = default_public_config();
    let plan = |font, material, country| {
        plan_order_creation(request(), &cfg, None, font, material, country).map(|_| ())
    };
    assert_eq!(plan(entry(false, None, 0), active(1), active(1)), Err(StoreError::InvalidReference));
    assert_eq!(
        plan(active(0), entry(true, Some(false), 1), entry(false, None, 1)),
        Err(StoreError::InactiveReference)
    );
    assert_eq!(
        plan(active(0), active(1), entry(true, None, 1)),
        Err(StoreError::InactiveReference)
    );
    assert_eq!(plan(active(0), active(i64::MAX), active(1)), Err(StoreError::Internal));
    assert_eq!(plan(active(0), active(1), active(1)), Ok(()));

    let mut french = request();
    french.locale = "fr".to_owned();
    let only_ja = PublicConfig {
        supported_locales: vec!["ja".to_owned()],
        default_locale: "ja".to_owned(),
    };
    assert_eq!(
        plan_order_creation(french, &only_ja, None, active(0), active(1), active(1)).map(|_| ()),
        Err(StoreError::UnsupportedLocale)
    );
    let input = normalize_create_order_input(request());
    assert_eq!(check_locales(&only_ja, &input), Ok(()));
    assert_eq!(check_reference(true, Some(true)), Ok(()));
    assert_eq!(check_reference(false, Some(true)), Err(StoreError::InvalidReference));
}

#[test]
fn price_order_adds_material_and_shipping() {
    assert_eq!(
        price_order(3_600, 600),
        Ok(Pricing {
            subtotal_jpy: 3_600,
            shipping_jpy: 600,
            tax_jpy: 0,
            discount_jpy: 0,
            total_jpy: 4_200
        })
    );
    assert_eq!(price_order(-5_000, 600).map(|p| p.total_jpy), Ok(0));
    assert_eq!(price_order(i64::MAX, 0).map(|p| p.total_jpy), Ok(i64::MAX));
    assert_eq!(price_order(i64::MAX, 1), Err(StoreError::Internal));
    assert_eq!(price_order(i64::MIN, i64::MIN).map(|p| p.total_jpy), Ok(0));
}

#[test]
fn order_number_has_date_and_four_digits() {
    assert_eq!(order_number("20260209", 42), "HF-20260209-0042");
    assert_eq!(order_number("20260209", 9_999), "HF-20260209-9999");
    assert_eq!(order_number("20260209", 10_000), "HF-20260209-0000");
    assert_eq!(order_number("20260209", 65_535), "HF-20260209-5535");
}

#[test]
fn order_is_created_paid_by_webhook_and_cannot_go_back() {
    let pricing = price_order(3_600, 600).unwrap();
    let created = created_order_result("ord_1", "HF-20260209-0001", pricing);
    assert_eq!(created.total_jpy, 4_200);
    assert_eq!(created.currency, "JPY");
    assert_eq!(created.status, "pending_payment");
    assert_eq!(created.payment_status, "unpaid");
    assert_eq!(created.fulfillment_status, "pending");

    let mut payment = PaymentOrder {
        status: created.status.clone(),
        status_updated_at: Timestamp { seconds: 1, nanos: 0 },
        updated_at: Timestamp { seconds: 1, nanos: 0 },
        payment_status: created.payment_status.clone(),
        fulfillment_status: created.fulfillment_status.clone(),
        payment_intent_id: String::new(),
        last_event_id: String::new(),
        events: Vec::new(),
    };
    let succeeded = StripeWebhookEvent {
        provider_event_id: "evt_1".to_owned(),
        event_type: "payment_intent.succeeded".to_owned(),
        payment_intent_id: "pi_1".to_owned(),
        order_id: "ord_1".to_owned(),
    };
    assert!(apply_stripe_event(&mut payment, &succeeded, Timestamp { seconds: 2, nanos: 0 }));
    assert_eq!(payment.status, "paid");
    assert_eq!(payment.payment_status, "paid");
    assert_eq!(payment.fulfillment_status, "pending");

    let mut order = hanko_orders::order::Order {
        id: "ord_1".to_owned(),
        order_no: created.order_no.clone(),
        channel: "web".to_owned(),
        locale: "ja".to_owned(),
        status: payment.status.clone(),
        status_updated_at: payment.status_updated_at,
        payment_status: payment.payment_status.clone(),
        fulfillment_status: payment.fulfillment_status.clone(),
        tracking_no: String::new(),
        carrier: String::new(),
        country_code: "JP".to_owned(),
        contact_email: "taro@example.com".to_owned(),
        seal_line1: "山".to_owned(),
        seal_line2: "田".to_owned(),
        material_label_ja: "柘植".to_owned(),
        total_jpy: created.total_jpy,
        created_at: Timestamp { seconds: 1, nanos: 0 },
        updated_at: payment.updated_at,
        events: Vec::new(),
    };
    let back = hanko_orders::order::update_order_status(
        &mut order,
        "pending_payment",
        "test.admin",
        Timestamp { seconds: 3, nanos: 0 },
    );
    assert!(back.is_err());
    assert_eq!(order.status, "paid");
    assert_eq!(order.fulfillment_status, "pending");
}

#[test]
fn new_order_number_draws_four_digits() {
    for _ in 0..50 {
        let number = new_order_number("20260209");
        assert_eq!(number.len(), 16);
        assert!(number.starts_with("HF-20260209-"));
        assert!(number[12..].chars().all(|c| c.is_ascii_digit()));
    }
}

#[test]
fn submission_is_answered_with_its_status() {
    let created = |replay: bool| -> Result<CreateOrderResult, StoreError> {
        let mut result =
            created_order_result("ord_1", "HF-20260209-0001", price_order(1, 2).unwrap());
        result.idempotent_replay = replay;
        Ok(result)
    };
    assert_eq!(create_order_status(&created(false)), 201);
    assert_eq!(create_order_status(&created(true)), 200);
    assert_eq!(create_order_status(&Err(StoreError::IdempotencyConflict)), 409);
    assert_eq!(create_order_status(&Err(StoreError::UnsupportedLocale)), 400);
    assert_eq!(create_order_status(&Err(StoreError::InvalidReference)), 400);
    assert_eq!(create_order_status(&Err(StoreError::InactiveReference)), 400);
    assert_eq!(create_order_status(&Err(StoreError::Internal)), 500);
    assert_eq!(StoreError::IdempotencyConflict.code(), "idempotency_conflict");
    assert_eq!(StoreError::Internal.message(), "internal server error");
    assert_eq!(StoreError::UnsupportedLocale.code(), "unsupported_locale");
    assert_eq!(StoreError::InvalidReference.message(), "invalid font/material/country");
    assert_eq!(StoreError::InactiveReference.code(), "inactive_reference");
}

#[test]
fn created_order_opens_its_log() {
    let event = order_created_event(Timestamp { seconds: 9, nanos: 1 });
    assert_eq!(event.kind, "order_created");
    assert_eq!(event.actor_type, "system");
    assert_eq!(event.before_status, "");
    assert_eq!(event.after_status, "");
    assert_eq!(event.created_at, Timestamp { seconds: 9, nanos: 1 });
}

#[test]
fn order_is_submitted_once_however_often_the_request_comes() {
    let cfg = default_public_config();
    let first = submit_order(
        None,
        None,
        request(),
        &cfg,
        active(0),
        active(3_600),
        active(600),
        "ord_1",
        "HF-20260209-0042",
    )
    .unwrap();
    assert!(first.created);
    assert!(!first.result.idempotent_replay);
    assert_eq!(first.result.order_id, "ord_1");
    assert_eq!(first.result.order_no, "HF-20260209-0042");
    assert_eq!(first.result.status, "pending_payment");
    assert_eq!(first.result.payment_status, "unpaid");
    assert_eq!(first.result.fulfillment_status, "pending");
    assert_eq!(first.result.total_jpy, 4_200);
    assert_eq!(first.result.currency, "JPY");
    assert_eq!(first.record.order_id, "ord_1");
    assert_eq!(
        first.record.request_hash,
        hash_order_request(&normalize_create_order_input(request()))
    );
    assert_eq!(first.order.total_jpy, Some(4_200));

    let mut record = first.record;
    let mut order = first.order;
    for round in 0..3 {
        let mut again = request();
        again.channel = format!("  WEB{}", " ".repeat(round));
        let replay = submit_order(
            Some(record),
            Some(order),
            again,
            &cfg,
            entry(false, None, 0),
            entry(true, Some(false), 9),
            entry(false, None, 0),
            "ord_other",
            "HF-20260210-0001",
        )
        .unwrap();
        assert!(!replay.created);
        assert!(replay.result.idempotent_replay);
        assert_eq!(replay.result.order_id, "ord_1");
        assert_eq!(replay.result.order_no, "HF-20260209-0042");
        assert_eq!(replay.result.total_jpy, 4_200);
        assert_eq!(replay.record.order_id, "ord_1");
        record = replay.record;
        order = replay.order;
    }

    let mut other = request();
    other.seal.line1 = "川".to_owned();
    let conflict = submit_order(
        Some(record),
        Some(order),
        other,
        &cfg,
        active(0),
        active(3_600),
        active(600),
        "ord_2",
        "HF-20260210-0002",
    );
    assert_eq!(conflict.map(|s| s.created), Err(StoreError::IdempotencyConflict));
}

#[test]
fn submission_is_refused_where_the_store_is_broken_or_the_total_too_large() {
    let cfg = default_public_config();
    let hash = hash_order_request(&normalize_create_order_input(request()));
    let replay_without_order = submit_order(
        Some(new_idempotency_record(&hash, "ord_gone")),
        None,
        request(),
        &cfg,
        active(0),
        active(1),
        active(1),
        "ord_2",
        "n",
    );
    assert_eq!(replay_without_order.map(|s| s.created), Err(StoreError::Internal));
    let nameless = submit_order(
        Some(new_idempotency_record(&hash, "")),
        None,
        request(),
        &cfg,
        active(0),
        active(1),
        active(1),
        "ord_2",
        "n",
    );
    assert_eq!(nameless.map(|s| s.created), Err(StoreError::Internal));
    let dear =
        submit_order(None, None, request(), &cfg, active(0), active(i64::MAX), active(1), "o", "n");
    assert_eq!(dear.map(|s| s.created), Err(StoreError::Internal));
}
