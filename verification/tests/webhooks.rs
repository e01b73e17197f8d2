use hanko_orders::order::Timestamp;
use hanko_orders::webhook::{
    apply_stripe_event, normalize_webhook_event, parse_stripe_event, process_stripe_webhook,
    stripe_transition, unprocessed_record, PaymentOrder, ProcessStripeWebhookResult,
    StripeObject, StripeWebhookEvent, WebhookError, WebhookEventRecord,
};

fn at(seconds: i64) -> Timestamp {
    Timestamp { seconds, nanos: 0 }
}

fn text_at(value: &serde_json::Value, pointer: &str) -> Option<String> {
    value.pointer(pointer).and_then(serde_json::Value::as_str).map(str::to_owned)
}

fn object_of(value: &serde_json::Value) -> Option<StripeObject> {
    let object = value.pointer("/data/object")?;
    object.as_object()?;
    Some(StripeObject {
        id: text_at(object, "/id"),
        payment_intent: text_at(object, "/payment_intent"),
        order_id: text_at(object, "/order_id"),
        metadata_order_id: text_at(object, "/metadata/order_id"),
        metadata_order_id_camel: text_at(object, "/metadata/orderId"),
        metadata_order_id_upper: text_at(object, "/metadata/orderID"),
    })
}

fn parse(payload: &[u8]) -> Result<StripeWebhookEvent, WebhookError> {
    let value: serde_json::Value = serde_json::from_slice(payload).expect("payload is JSON");
    let id = text_at(&value, "/id").unwrap_or_default();
    let event_type = text_at(&value, "/type").unwrap_or_default();
    let object = object_of(&value);
    parse_stripe_event(&id, &event_type, object.as_ref())
}

fn event(id: &str, event_type: &str, order_id: &str) -> StripeWebhookEvent {
    StripeWebhookEvent {
        provider_event_id: id.to_owned(),
        event_type: event_type.to_owned(),
        payment_intent_id: "pi_1".to_owned(),
        order_id: order_id.to_owned(),
    }
}

fn payment_order(status: &str, payment_status: &str) -> PaymentOrder {
    PaymentOrder {
        status: status.to_owned(),
        status_updated_at: at(10),
        updated_at: at(10),
        payment_status: payment_status.to_owned(),
        fulfillment_status: "pending".to_owned(),
        payment_intent_id: String::new(),
        last_event_id: String::new(),
        events: Vec::new(),
    }
}

#[test]
fn parse_stripe_event_extracts_core_fields() {
    let payload = br#"{"id":"evt_1","type":"payment_intent.succeeded","data":{"object":{"id":"pi_1","metadata":{"order_id":"order_1"}}}}"#;

    let event = parse(payload).expect("payload must parse");
    assert_eq!(event.provider_event_id, "evt_1");
    assert_eq!(event.payment_intent_id, "pi_1");
    assert_eq!(event.order_id, "order_1");
}

#[test]
fn parse_stripe_event_prefers_direct_members() {
    let payload = br#"{"id":" evt_2 ","type":" charge.refunded ","data":{"object":{"id":"ch_9","payment_intent":" pi_7 ","order_id":" o_1 ","metadata":{"order_id":"o_2"}}}}"#;
    let event = parse(payload).unwrap();
    assert_eq!(event.provider_event_id, "evt_2");
    assert_eq!(event.event_type, "charge.refunded");
    assert_eq!(event.payment_intent_id, "pi_7");
    assert_eq!(event.order_id, "o_1");

    let fallback = br#"{"id":"evt_3","type":"x","data":{"object":{"id":"ch_9","order_id":"  ","metadata":{"order_id":" ","orderId":"","orderID":" o_3 "}}}}"#;
    let event = parse(fallback).unwrap();
    assert_eq!(event.payment_intent_id, "");
    assert_eq!(event.order_id, "o_3");

    let bare = br#"{"id":"evt_4","type":"x","data":{"object":7}}"#;
    let event = parse(bare).unwrap();
    assert_eq!(event.payment_intent_id, "");
    assert_eq!(event.order_id, "");
}

#[test]
fn parse_stripe_event_requires_id_and_type() {
    assert_eq!(
        parse_stripe_event(" ", "x", None).map(|e| e.event_type),
        Err(WebhookError::MissingIdOrType)
    );
    assert_eq!(
        parse_stripe_event("evt", "", None).map(|e| e.event_type),
        Err(WebhookError::MissingIdOrType)
    );
}

#[test]
fn normalize_webhook_event_trims_every_member() {
    let e = normalize_webhook_event(StripeWebhookEvent {
        provider_event_id: " evt_1\n".to_owned(),
        event_type: "\tcharge.refunded ".to_owned(),
        payment_intent_id: " pi_1 ".to_owned(),
        order_id: "\u{3000}o_1 ".to_owned(),
    });
    assert_eq!(e.provider_event_id, "evt_1");
    assert_eq!(e.event_type, "charge.refunded");
    assert_eq!(e.payment_intent_id, "pi_1");
    assert_eq!(e.order_id, "o_1");
}

#[test]
fn stripe_transition_maps_event_types() {
    assert_eq!(stripe_transition("payment_intent.succeeded"), ("paid", "paid", "payment_paid"));
    assert_eq!(
        stripe_transition("payment_intent.payment_failed"),
        ("failed", "canceled", "payment_failed")
    );
    assert_eq!(
        stripe_transition("payment_intent.canceled"),
        ("failed", "canceled", "payment_failed")
    );
    assert_eq!(stripe_transition("charge.refunded"), ("refunded", "refunded", "payment_refunded"));
    assert_eq!(stripe_transition("customer.created"), ("", "", "payment_event_recorded"));
}

#[test]
fn webhook_payment_moves_pending_order_to_paid() {
    let mut order = payment_order("pending_payment", "unpaid");
    let moved = apply_stripe_event(
        &mut order,
        &event("evt_1", "payment_intent.succeeded", "o_1"),
        at(20),
    );
    assert!(moved);
    assert_eq!(order.status, "paid");
    assert_eq!(order.payment_status, "paid");
    assert_eq!(order.fulfillment_status, "pending");
    assert_eq!(order.status_updated_at, at(20));
    assert_eq!(order.updated_at, at(20));
    assert_eq!(order.last_event_id, "evt_1");
    assert_eq!(order.payment_intent_id, "pi_1");
    assert_eq!(order.events.len(), 1);
    assert_eq!(order.events[0].kind, "payment_paid");
    assert_eq!(order.events[0].actor_type, "webhook");
    assert_eq!(order.events[0].actor_id, "stripe");
    assert_eq!(order.events[0].before_status, "pending_payment");
    assert_eq!(order.events[0].after_status, "paid");
}

#[test]
fn webhook_illegal_transition_updates_payment_only() {
    let mut order = payment_order("shipped", "paid");
    let moved = apply_stripe_event(
        &mut order,
        &event("evt_2", "payment_intent.payment_failed", "o_1"),
        at(30),
    );
    assert!(!moved);
    assert_eq!(order.status, "shipped");
    assert_eq!(order.status_updated_at, at(10));
    assert_eq!(order.payment_status, "failed");
    assert_eq!(order.last_event_id, "evt_2");
    assert_eq!(order.events.len(), 1);
    assert_eq!(order.events[0].kind, "payment_failed");
    assert_eq!(order.events[0].before_status, "");
    assert_eq!(order.events[0].after_status, "");

    let mut paid = payment_order("paid", "paid");
    assert!(!apply_stripe_event(&mut paid, &event("e", "payment_intent.succeeded", "o"), at(1)));
    assert_eq!(paid.status, "paid");

    let mut other = payment_order("paid", "paid");
    let mut unknown = event("evt_3", "customer.created", "o");
    unknown.payment_intent_id = String::new();
    assert!(!apply_stripe_event(&mut other, &unknown, at(1)));
    assert_eq!(other.payment_status, "paid");
    assert_eq!(other.payment_intent_id, "");
    assert_eq!(other.events[0].kind, "payment_event_recorded");
}

#[test]
fn same_event_delivered_twice_transitions_once() {
    let order = payment_order("pending_payment", "unpaid");
    let first = process_stripe_webhook(
        None,
        Some(order),
        event(" evt_1 ", "payment_intent.succeeded", "o_1"),
        at(20),
    )
    .unwrap();
    assert_eq!(
        first.result,
        ProcessStripeWebhookResult { processed: true, already_processed: false }
    );
    assert!(first.record.processed);
    assert_eq!(first.record.event_type, "payment_intent.succeeded");
    assert_eq!(first.record.order_id, "o_1");
    let after_first = first.order.unwrap();
    assert_eq!(after_first.status, "paid");
    assert_eq!(after_first.events.len(), 1);

    let second = process_stripe_webhook(
        Some(first.record),
        Some(after_first),
        event("evt_1", "payment_intent.succeeded", "o_1"),
        at(99),
    )
    .unwrap();
    assert_eq!(
        second.result,
        ProcessStripeWebhookResult { processed: false, already_processed: true }
    );
    let after_second = second.order.unwrap();
    assert_eq!(after_second.status, "paid");
    assert_eq!(after_second.events.len(), 1);
    assert_eq!(after_second.updated_at, at(20));
    assert!(second.record.processed);
}

#[test]
fn unfinished_delivery_is_handled_again() {
    let open = unprocessed_record(&event("evt_1", " charge.refunded ", " o_1 "));
    assert!(!open.processed);
    assert_eq!(open.event_type, "charge.refunded");
    assert_eq!(open.order_id, "o_1");
    let outcome = process_stripe_webhook(
        Some(open),
        Some(payment_order("paid", "paid")),
        event("evt_1", "charge.refunded", "o_1"),
        at(5),
    )
    .unwrap();
    assert!(outcome.result.processed);
    assert_eq!(outcome.order.unwrap().status, "refunded");
}

#[test]
fn event_without_order_is_only_recorded() {
    let outcome =
        process_stripe_webhook(None, None, event("evt_1", "charge.refunded", "o_404"), at(5))
            .unwrap();
    assert!(outcome.result.processed);
    assert!(!outcome.result.already_processed);
    assert!(outcome.order.is_none());
    assert!(outcome.record.processed);

    let untouched = process_stripe_webhook(
        None,
        Some(payment_order("paid", "paid")),
        event("evt_2", "charge.refunded", "  "),
        at(5),
    )
    .unwrap();
    let order = untouched.order.unwrap();
    assert_eq!(order.status, "paid");
    assert!(order.events.is_empty());
    assert!(untouched.result.processed);
}

#[test]
fn event_without_id_is_refused() {
    let record = WebhookEventRecord {
        event_type: "x".to_owned(),
        order_id: String::new(),
        processed: true,
    };
    let result = process_stripe_webhook(Some(record), None, event("  ", "x", "o"), at(1));
    assert_eq!(result.map(|o| o.result), Err(WebhookError::MissingEventId));
}

#[test]
fn webhook_transition_derives_both_statuses() {
    let mut shipped = payment_order("shipped", "paid");
    shipped.fulfillment_status = "shipped".to_owned();
    assert!(apply_stripe_event(&mut shipped, &event("e1", "charge.refunded", "o"), at(3)));
    assert_eq!(shipped.status, "refunded");
    assert_eq!(shipped.payment_status, "refunded");
    assert_eq!(shipped.fulfillment_status, "shipped");

    let mut legacy = payment_order("pending_payment", "");
    legacy.fulfillment_status = String::new();
    assert!(apply_stripe_event(&mut legacy, &event("e2", "payment_intent.canceled", "o"), at(3)));
    assert_eq!(legacy.status, "canceled");
    assert_eq!(legacy.payment_status, "failed");
    assert_eq!(legacy.fulfillment_status, "pending");

    let mut untouched = payment_order("delivered", "paid");
    untouched.fulfillment_status = "delivered".to_owned();
    assert!(!apply_stripe_event(&mut untouched, &event("e3", "charge.refunded", "o"), at(3)));
    assert_eq!(untouched.status, "delivered");
    assert_eq!(untouched.payment_status, "refunded");
    assert_eq!(untouched.fulfillment_status, "delivered");
}
