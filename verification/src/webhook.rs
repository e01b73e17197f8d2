use vstd::prelude::*;
use crate::order::{derive_statuses, events_view, OrderEvent, OrderEventView, Timestamp};
use crate::status::{
    can_transition, derived_fulfillment, derived_payment, may_transition, OrderStatus,
};
use crate::text::{chars_of, is_blank, same_text, trim_owned, trimmed};

verus! {

/// A payment provider's event, reduced to what the order engine reads.
#[derive(Debug)]
pub struct StripeWebhookEvent {
    pub provider_event_id: String,
    pub event_type: String,
    pub payment_intent_id: String,
    pub order_id: String,
}

/// What an event holds.
pub struct StripeWebhookEventView {
    pub provider_event_id: Seq<char>,
    pub event_type: Seq<char>,
    pub payment_intent_id: Seq<char>,
    pub order_id: Seq<char>,
}

impl View for StripeWebhookEvent {
    type V = StripeWebhookEventView;

    open spec fn view(&self) -> StripeWebhookEventView {
        StripeWebhookEventView {
            provider_event_id: self.provider_event_id@,
            event_type: self.event_type@,
            payment_intent_id: self.payment_intent_id@,
            order_id: self.order_id@,
        }
    }
}

/// The string members of an event's `data.object` that name a payment intent
/// or an order; `None` where a member is absent or no string. The three
/// `metadata_*` members are `order_id`, `orderId` and `orderID` of `metadata`.
#[derive(Debug)]
pub struct StripeObject {
    pub id: Option<String>,
    pub payment_intent: Option<String>,
    pub order_id: Option<String>,
    pub metadata_order_id: Option<String>,
    pub metadata_order_id_camel: Option<String>,
    pub metadata_order_id_upper: Option<String>,
}

/// The text of an optional string, trimmed; empty where there is none.
pub open spec fn trimmed_or_empty(member: Option<String>) -> Seq<char> {
    match member {
        Some(text) => trimmed(text@),
        None => Seq::<char>::empty(),
    }
}

/// Whether `text` begins with `pi_`.
pub open spec fn names_payment_intent(text: Seq<char>) -> bool {
    text.len() >= 3 && text[0] == 'p' && text[1] == 'i' && text[2] == '_'
}

/// The payment intent that an event's object names: its `payment_intent`
/// member, else its own id where that is the id of a payment intent.
pub open spec fn resolved_payment_intent(object: StripeObject) -> Seq<char> {
    if object.payment_intent is Some {
        trimmed_or_empty(object.payment_intent)
    } else if names_payment_intent(trimmed_or_empty(object.id)) {
        trimmed_or_empty(object.id)
    } else {
        Seq::<char>::empty()
    }
}

/// The order that an event's object names: its `order_id` member, else the
/// first of the metadata members that is not blank.
pub open spec fn resolved_order_id(object: StripeObject) -> Seq<char> {
    if trimmed_or_empty(object.order_id).len() > 0 {
        trimmed_or_empty(object.order_id)
    } else if trimmed_or_empty(object.metadata_order_id).len() > 0 {
        trimmed_or_empty(object.metadata_order_id)
    } else if trimmed_or_empty(object.metadata_order_id_camel).len() > 0 {
        trimmed_or_empty(object.metadata_order_id_camel)
    } else {
        trimmed_or_empty(object.metadata_order_id_upper)
    }
}

/// Why an event envelope was refused.
#[derive(Clone, Copy, Debug, PartialEq, Eq, Structural)]
pub enum WebhookError {
    /// The envelope has no event id or no event type.
    MissingIdOrType,
    /// The event to process has no provider event id.
    MissingEventId,
}

fn trimmed_member(member: &Option<String>) -> (r: String)
    ensures
        r@ == trimmed_or_empty(*member),
{
    match member {
        Some(text) => trim_owned(text.as_str()),
        None => String::new(),
    }
}

fn begins_with_pi(text: &str) -> (r: bool)
    ensures
        r == names_payment_intent(text@),
{
    let v: Vec<char> = chars_of(text);
    v.len() >= 3 && v[0] == 'p' && v[1] == 'i' && v[2] == '_'
}

/// Reads an event from the members of its envelope: `id`, `type` and what
/// `data.object` holds, or `None` where `data.object` is no JSON object. Id
/// and type must not be blank.
pub fn parse_stripe_event(id: &str, event_type: &str, object: Option<&StripeObject>) -> (r: Result<
    StripeWebhookEvent,
    WebhookError,
>)
    ensures
        r is Ok <==> !is_blank(id@) && !is_blank(event_type@),
        r matches Err(e) ==> e == WebhookError::MissingIdOrType,
        r matches Ok(event) ==> event@ == (StripeWebhookEventView {
            provider_event_id: trimmed(id@),
            event_type: trimmed(event_type@),
            payment_intent_id: match object {
                Some(o) => resolved_payment_intent(*o),
                None => Seq::<char>::empty(),
            },
            order_id: match object {
                Some(o) => resolved_order_id(*o),
                None => Seq::<char>::empty(),
            },
        }),
{
    let provider_event_id: String = trim_owned(id);
    let kind: String = trim_owned(event_type);
    if provider_event_id.as_str().is_empty() || kind.as_str().is_empty() {
        return Err(WebhookError::MissingIdOrType);
    }
    let mut payment_intent_id: String = String::new();
    let mut order_id: String = String::new();
    match object {
        Some(o) => {
            let own_id: String = trimmed_member(&o.id);
            if begins_with_pi(own_id.as_str()) {
                payment_intent_id = own_id;
            }
            if o.payment_intent.is_some() {
                payment_intent_id = trimmed_member(&o.payment_intent);
            }
            order_id = trimmed_member(&o.order_id);
            if order_id.as_str().is_empty() {
                order_id = trimmed_member(&o.metadata_order_id);
            }
            if order_id.as_str().is_empty() {
                order_id = trimmed_member(&o.metadata_order_id_camel);
            }
            if order_id.as_str().is_empty() {
                order_id = trimmed_member(&o.metadata_order_id_upper);
            }
        },
        None => {},
    }
    Ok(StripeWebhookEvent { provider_event_id, event_type: kind, payment_intent_id, order_id })
}

/// An event with every member trimmed.
pub fn normalize_webhook_event(event: StripeWebhookEvent) -> (r: StripeWebhookEvent)
    ensures
        r@ == (StripeWebhookEventView {
            provider_event_id: trimmed(event.provider_event_id@),
            event_type: trimmed(event.event_type@),
            payment_intent_id: trimmed(event.payment_intent_id@),
            order_id: trimmed(event.order_id@),
        }),
{
    StripeWebhookEvent {
        provider_event_id: trim_owned(event.provider_event_id.as_str()),
        event_type: trim_owned(event.event_type.as_str()),
        payment_intent_id: trim_owned(event.payment_intent_id.as_str()),
        order_id: trim_owned(event.order_id.as_str()),
    }
}

/// What a kind of provider event asks of an order.
#[derive(Clone, Copy, Debug, PartialEq, Eq, Structural)]
pub enum PaymentSignal {
    /// `payment_intent.succeeded`
    Succeeded,
    /// `payment_intent.payment_failed` or `payment_intent.canceled`
    Failed,
    /// `charge.refunded`
    Refunded,
    /// Any other event: recorded, nothing more.
    Other,
}

/// The signal that an event type carries.
pub open spec fn signal_of(event_type: Seq<char>) -> PaymentSignal {
    if event_type == "payment_intent.succeeded"@ {
        PaymentSignal::Succeeded
    } else if event_type == "payment_intent.payment_failed"@ || event_type
        == "payment_intent.canceled"@ {
        PaymentSignal::Failed
    } else if event_type == "charge.refunded"@ {
        PaymentSignal::Refunded
    } else {
        PaymentSignal::Other
    }
}

/// The payment status that a signal sets; empty where it sets none.
pub open spec fn signal_payment_status(signal: PaymentSignal) -> Seq<char> {
    match signal {
        PaymentSignal::Succeeded => "paid"@,
        PaymentSignal::Failed => "failed"@,
        PaymentSignal::Refunded => "refunded"@,
        PaymentSignal::Other => ""@,
    }
}

/// The order status that a signal asks for; empty where it asks for none.
pub open spec fn signal_next_status(signal: PaymentSignal) -> Seq<char> {
    match signal {
        PaymentSignal::Succeeded => "paid"@,
        PaymentSignal::Failed => "canceled"@,
        PaymentSignal::Refunded => "refunded"@,
        PaymentSignal::Other => ""@,
    }
}

/// The kind of audit entry that a signal leaves.
pub open spec fn signal_audit_kind(signal: PaymentSignal) -> Seq<char> {
    match signal {
        PaymentSignal::Succeeded => "payment_paid"@,
        PaymentSignal::Failed => "payment_failed"@,
        PaymentSignal::Refunded => "payment_refunded"@,
        PaymentSignal::Other => "payment_event_recorded"@,
    }
}

/// For an event type: the payment status to set, the order status to move
/// to, and the kind of audit entry. The first two are empty for an event that
/// is only recorded.
pub fn stripe_transition(event_type: &str) -> (r: (&'static str, &'static str, &'static str))
    ensures
        r.0@ == signal_payment_status(signal_of(event_type@)),
        r.1@ == signal_next_status(signal_of(event_type@)),
        r.2@ == signal_audit_kind(signal_of(event_type@)),
{
    if same_text(event_type, "payment_intent.succeeded") {
        ("paid", "paid", "payment_paid")
    } else if same_text(event_type, "payment_intent.payment_failed") || same_text(
        event_type,
        "payment_intent.canceled",
    ) {
        ("failed", "canceled", "payment_failed")
    } else if same_text(event_type, "charge.refunded") {
        ("refunded", "refunded", "payment_refunded")
    } else {
        ("", "", "payment_event_recorded")
    }
}

/// The stored trace of a provider event, kept under the provider's event id.
#[derive(Debug)]
pub struct WebhookEventRecord {
    pub event_type: String,
    pub order_id: String,
    pub processed: bool,
}

/// What a trace holds.
pub struct WebhookEventRecordView {
    pub event_type: Seq<char>,
    pub order_id: Seq<char>,
    pub processed: bool,
}

impl View for WebhookEventRecord {
    type V = WebhookEventRecordView;

    open spec fn view(&self) -> WebhookEventRecordView {
        WebhookEventRecordView {
            event_type: self.event_type@,
            order_id: self.order_id@,
            processed: self.processed,
        }
    }
}

/// The part of an order that payment events read and write.
#[derive(Debug)]
pub struct PaymentOrder {
    pub status: String,
    pub status_updated_at: Timestamp,
    pub updated_at: Timestamp,
    pub payment_status: String,
    pub fulfillment_status: String,
    pub payment_intent_id: String,
    pub last_event_id: String,
    pub events: Vec<OrderEvent>,
}

/// What that part holds.
pub struct PaymentOrderView {
    pub status: Seq<char>,
    pub status_updated_at: Timestamp,
    pub updated_at: Timestamp,
    pub payment_status: Seq<char>,
    pub fulfillment_status: Seq<char>,
    pub payment_intent_id: Seq<char>,
    pub last_event_id: Seq<char>,
    pub events: Seq<OrderEventView>,
}

impl View for PaymentOrder {
    type V = PaymentOrderView;

    open spec fn view(&self) -> PaymentOrderView {
        PaymentOrderView {
            status: self.status@,
            status_updated_at: self.status_updated_at,
            updated_at: self.updated_at,
            payment_status: self.payment_status@,
            fulfillment_status: self.fulfillment_status@,
            payment_intent_id: self.payment_intent_id@,
            last_event_id: self.last_event_id@,
            events: events_view(self.events@),
        }
    }
}

/// Whether an event of type `event_type` moves an order that is in `status`:
/// it asks for a status, and the transition table allows the move. A move to
/// the status that the order already has is never allowed.
pub open spec fn event_moves_order(status: Seq<char>, event_type: Seq<char>) -> bool {
    may_transition(status, signal_next_status(signal_of(event_type)))
}

/// The audit entry that an event leaves on an order that was in `status`.
pub open spec fn webhook_audit_event(
    status: Seq<char>,
    event_type: Seq<char>,
    now: Timestamp,
) -> OrderEventView {
    let moved = event_moves_order(status, event_type);
    OrderEventView {
        kind: signal_audit_kind(signal_of(event_type)),
        actor_type: "webhook"@,
        actor_id: "stripe"@,
        before_status: if moved {
            status
        } else {
            Seq::<char>::empty()
        },
        after_status: if moved {
            signal_next_status(signal_of(event_type))
        } else {
            Seq::<char>::empty()
        },
        note: Seq::<char>::empty(),
        created_at: now,
    }
}

/// The order after an event: the payment members always follow the event;
/// the status follows it where the transition table allows, and then the
/// fulfillment status is the one that follows from the new status.
pub open spec fn order_after_event(
    order: PaymentOrderView,
    event: StripeWebhookEventView,
    now: Timestamp,
) -> PaymentOrderView {
    let signal = signal_of(event.event_type);
    let moved = event_moves_order(order.status, event.event_type);
    PaymentOrderView {
        status: if moved {
            signal_next_status(signal)
        } else {
            order.status
        },
        status_updated_at: if moved {
            now
        } else {
            order.status_updated_at
        },
        updated_at: now,
        payment_status: if signal_payment_status(signal).len() > 0 {
            signal_payment_status(signal)
        } else {
            order.payment_status
        },
        fulfillment_status: if moved {
            derived_fulfillment(signal_next_status(signal), order.fulfillment_status)
        } else {
            order.fulfillment_status
        },
        payment_intent_id: if event.payment_intent_id.len() > 0 {
            event.payment_intent_id
        } else {
            order.payment_intent_id
        },
        last_event_id: event.provider_event_id,
        events: order.events.push(webhook_audit_event(order.status, event.event_type, now)),
    }
}

/// Applies a provider event to an order. Returns whether the order's status moved.
pub fn apply_stripe_event(order: &mut PaymentOrder, event: &StripeWebhookEvent, now: Timestamp) -> (moved:
    bool)
    ensures
        final(order)@ == order_after_event(old(order)@, event@, now),
        moved == event_moves_order(old(order).status@, event.event_type@),
        moved ==> final(order).payment_status@ == derived_payment(final(order).status@),
        moved ==> final(order).fulfillment_status@ == derived_fulfillment(
            final(order).status@,
            old(order).fulfillment_status@,
        ),
{
    let (payment_status, next_status, audit_kind) = stripe_transition(event.event_type.as_str());
    let moved: bool = can_transition(order.status.as_str(), next_status);
    let mut audit = OrderEvent {
        kind: audit_kind.to_owned(),
        actor_type: "webhook".to_owned(),
        actor_id: "stripe".to_owned(),
        before_status: String::new(),
        after_status: String::new(),
        note: String::new(),
        created_at: now,
    };
    order.last_event_id = event.provider_event_id.clone();
    if !event.payment_intent_id.as_str().is_empty() {
        order.payment_intent_id = event.payment_intent_id.clone();
    }
    if !payment_status.is_empty() {
        order.payment_status = payment_status.to_owned();
    }
    order.updated_at = now;
    if moved {
        audit.before_status = order.status.clone();
        audit.after_status = next_status.to_owned();
        let derived = derive_statuses(next_status, order.fulfillment_status.as_str());
        order.status = next_status.to_owned();
        order.status_updated_at = now;
        order.fulfillment_status = derived.1;
    }
    let ghost entry = audit@;
    order.events.push(audit);
    proof {
        assert(final(order)@.events =~= old(order)@.events.push(entry));
        if moved {
            reveal_strlit("");
            if signal_of(event.event_type@) == PaymentSignal::Other {
                crate::status::lemma_empty_text_is_no_status(""@);
            }
            lemma_signal_statuses_agree(signal_of(event.event_type@));
        }
    }
    moved
}

/// Where a signal moves an order, the payment status that it sets is the one
/// that follows from the new order status.
pub proof fn lemma_signal_statuses_agree(signal: PaymentSignal)
    requires
        signal != PaymentSignal::Other,
    ensures
        signal_payment_status(signal) == derived_payment(signal_next_status(signal)),
        signal_payment_status(signal).len() > 0,
{
    crate::status::lemma_status_text_round_trip(OrderStatus::Paid);
    crate::status::lemma_status_text_round_trip(OrderStatus::Canceled);
    crate::status::lemma_status_text_round_trip(OrderStatus::Refunded);
    reveal_strlit("paid");
    reveal_strlit("failed");
    reveal_strlit("refunded");
    assert("paid"@.len() == 4);
    assert("failed"@.len() == 6);
    assert("refunded"@.len() == 8);
}

/// What the caller is told about a delivery.
#[derive(Clone, Copy, Debug, PartialEq, Eq, Structural)]
pub struct ProcessStripeWebhookResult {
    pub processed: bool,
    pub already_processed: bool,
}

/// A delivery's outcome: the trace to keep, the order as it is afterwards
/// (`None` where there is no order), and what the caller is told.
#[derive(Debug)]
pub struct WebhookOutcome {
    pub record: WebhookEventRecord,
    pub order: Option<PaymentOrder>,
    pub result: ProcessStripeWebhookResult,
}

/// What an outcome holds.
pub struct WebhookOutcomeView {
    pub record: WebhookEventRecordView,
    pub order: Option<PaymentOrderView>,
    pub result: ProcessStripeWebhookResult,
}

/// What an optional order holds.
pub open spec fn order_slot_view(order: Option<PaymentOrder>) -> Option<PaymentOrderView> {
    match order {
        Some(o) => Some(o@),
        None => None,
    }
}

/// What an optional trace holds.
pub open spec fn record_slot_view(record: Option<WebhookEventRecord>) -> Option<
    WebhookEventRecordView,
> {
    match record {
        Some(r) => Some(r@),
        None => None,
    }
}

impl View for WebhookOutcome {
    type V = WebhookOutcomeView;

    open spec fn view(&self) -> WebhookOutcomeView {
        WebhookOutcomeView {
            record: self.record@,
            order: order_slot_view(self.order),
            result: self.result,
        }
    }
}

/// An event with every member trimmed.
pub open spec fn normalized_event(event: StripeWebhookEventView) -> StripeWebhookEventView {
    StripeWebhookEventView {
        provider_event_id: trimmed(event.provider_event_id),
        event_type: trimmed(event.event_type),
        payment_intent_id: trimmed(event.payment_intent_id),
        order_id: trimmed(event.order_id),
    }
}

/// The trace of an event whose handling has begun and not ended.
pub open spec fn pending_record(event: StripeWebhookEventView) -> WebhookEventRecordView {
    WebhookEventRecordView {
        event_type: normalized_event(event).event_type,
        order_id: normalized_event(event).order_id,
        processed: false,
    }
}

/// The outcome of delivering `event` at `now`, given the trace kept under its
/// id, if any, and the order that it names, if there is one.
///
/// An event whose trace says `processed` changes nothing. Any other event is
/// handled, and its trace then says `processed`: where it names an order that
/// exists, the order follows the event; otherwise there is nothing to do.
pub open spec fn delivered(
    record: Option<WebhookEventRecordView>,
    order: Option<PaymentOrderView>,
    event: StripeWebhookEventView,
    now: Timestamp,
) -> Result<WebhookOutcomeView, WebhookError> {
    let e = normalized_event(event);
    if e.provider_event_id.len() == 0 {
        Err(WebhookError::MissingEventId)
    } else if record is Some && record.unwrap().processed {
        Ok(
            WebhookOutcomeView {
                record: record.unwrap(),
                order,
                result: ProcessStripeWebhookResult { processed: false, already_processed: true },
            },
        )
    } else {
        Ok(
            WebhookOutcomeView {
                record: WebhookEventRecordView { processed: true, ..pending_record(event) },
                order: if e.order_id.len() > 0 && order is Some {
                    Some(order_after_event(order.unwrap(), e, now))
                } else {
                    order
                },
                result: ProcessStripeWebhookResult { processed: true, already_processed: false },
            },
        )
    }
}

/// The trace to store before an event's order is touched, so that a crash in
/// between leaves the event open for the provider's next attempt.
pub fn unprocessed_record(event: &StripeWebhookEvent) -> (r: WebhookEventRecord)
    ensures
        r@ == pending_record(event@),
{
    WebhookEventRecord {
        event_type: trim_owned(event.event_type.as_str()),
        order_id: trim_owned(event.order_id.as_str()),
        processed: false,
    }
}

/// Handles one delivery of a provider event. `record` is the trace kept under
/// the event's id, if any; `order` is the order that the event names, or
/// `None` where it names none or the order does not exist.
pub fn process_stripe_webhook(
    record: Option<WebhookEventRecord>,
    order: Option<PaymentOrder>,
    event: StripeWebhookEvent,
    now: Timestamp,
) -> (r: Result<WebhookOutcome, WebhookError>)
    ensures
        match r {
            Ok(outcome) => delivered(
                record_slot_view(record),
                order_slot_view(order),
                event@,
                now,
            ) == Ok::<WebhookOutcomeView, WebhookError>(outcome@),
            Err(e) => delivered(record_slot_view(record), order_slot_view(order), event@, now)
                == Err::<WebhookOutcomeView, WebhookError>(e),
        },
{
    let normalized = normalize_webhook_event(event);
    if normalized.provider_event_id.as_str().is_empty() {
        return Err(WebhookError::MissingEventId);
    }
    match record {
        Some(existing) => {
            if existing.processed {
                return Ok(
                    WebhookOutcome {
                        record: existing,
                        order,
                        result: ProcessStripeWebhookResult {
                            processed: false,
                            already_processed: true,
                        },
                    },
                );
            }
        },
        None => {},
    }
    let mut trace = unprocessed_record(&normalized);
    assert(trimmed(trimmed(event.event_type@)) == trimmed(event.event_type@)
        && trimmed(trimmed(event.order_id@)) == trimmed(event.order_id@)) by {
        crate::text::lemma_trimmed_is_trimmed(event.event_type@);
        crate::text::lemma_trimmed_is_trimmed(event.order_id@);
    }
    trace.processed = true;
    let result = ProcessStripeWebhookResult { processed: true, already_processed: false };
    if normalized.order_id.as_str().is_empty() {
        return Ok(WebhookOutcome { record: trace, order, result });
    }
    match order {
        Some(mut found) => {
            apply_stripe_event(&mut found, &normalized, now);
            Ok(WebhookOutcome { record: trace, order: Some(found), result })
        },
        None => Ok(WebhookOutcome { record: trace, order: None, result }),
    }
}

/// Delivering an event a second time changes nothing: the first delivery
/// leaves a trace that says `processed`, and the second, whenever it comes,
/// reports `already_processed` and returns order and trace as it found them.
/// So one event id accounts for at most one status transition, and for
/// exactly one audit entry on the order that it names: the entry that was
/// added when the order took the event's id as that of its last event.
pub proof fn lemma_second_delivery_changes_nothing(
    record: Option<WebhookEventRecordView>,
    order: Option<PaymentOrderView>,
    event: StripeWebhookEventView,
    now: Timestamp,
    later: Timestamp,
)
    requires
        delivered(record, order, event, now) is Ok,
    ensures
        ({
            let first = delivered(record, order, event, now).unwrap();
            let second = delivered(Some(first.record), first.order, event, later);
            &&& first.record.processed
            &&& second is Ok
            &&& second.unwrap().result == (ProcessStripeWebhookResult {
                processed: false,
                already_processed: true,
            })
            &&& second.unwrap().order == first.order
            &&& second.unwrap().record == first.record
            &&& (first.result.processed && order is Some && normalized_event(event).order_id.len()
                > 0) ==> {
                &&& first.order.unwrap().events == order.unwrap().events.push(
                    webhook_audit_event(
                        order.unwrap().status,
                        normalized_event(event).event_type,
                        now,
                    ),
                )
                &&& first.order.unwrap().last_event_id == normalized_event(event).provider_event_id
                &&& second.unwrap().order.unwrap().last_event_id == normalized_event(
                    event,
                ).provider_event_id
            }
        }),
{
}

} // verus!
