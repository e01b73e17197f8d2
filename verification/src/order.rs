use vstd::prelude::*;
use vstd::string::StringExecFns;
use crate::status::{
    can_transition, derived_fulfillment, derived_payment, lemma_empty_text_is_no_status,
    may_transition, order_status_label, order_status_label_text, parse_status, OrderStatus,
};
use crate::text::{
    ascii_lowercase, chars_of, contains_text, has_text, lowercase, same_chars, same_text,
    to_ascii_lowercase, to_lowercase, trim, trim_owned, trimmed,
};

verus! {

/// A point in time: seconds since the Unix epoch, and the nanoseconds past that second.
#[derive(Clone, Copy, Debug, PartialEq, Eq, Structural)]
pub struct Timestamp {
    pub seconds: i64,
    pub nanos: u32,
}

/// One entry of an order's audit log.
#[derive(Debug)]
pub struct OrderEvent {
    pub kind: String,
    pub actor_type: String,
    pub actor_id: String,
    pub before_status: String,
    pub after_status: String,
    pub note: String,
    pub created_at: Timestamp,
}

/// What an audit entry says.
pub struct OrderEventView {
    pub kind: Seq<char>,
    pub actor_type: Seq<char>,
    pub actor_id: Seq<char>,
    pub before_status: Seq<char>,
    pub after_status: Seq<char>,
    pub note: Seq<char>,
    pub created_at: Timestamp,
}

impl View for OrderEvent {
    type V = OrderEventView;

    open spec fn view(&self) -> OrderEventView {
        OrderEventView {
            kind: self.kind@,
            actor_type: self.actor_type@,
            actor_id: self.actor_id@,
            before_status: self.before_status@,
            after_status: self.after_status@,
            note: self.note@,
            created_at: self.created_at,
        }
    }
}

impl Clone for OrderEvent {
    fn clone(&self) -> (r: Self)
        ensures
            r@ == self@,
    {
        OrderEvent {
            kind: self.kind.clone(),
            actor_type: self.actor_type.clone(),
            actor_id: self.actor_id.clone(),
            before_status: self.before_status.clone(),
            after_status: self.after_status.clone(),
            note: self.note.clone(),
            created_at: self.created_at,
        }
    }
}

/// An order as the admin console holds it.
#[derive(Debug)]
pub struct Order {
    pub id: String,
    pub order_no: String,
    pub channel: String,
    pub locale: String,
    pub status: String,
    pub status_updated_at: Timestamp,
    pub payment_status: String,
    pub fulfillment_status: String,
    pub tracking_no: String,
    pub carrier: String,
    pub country_code: String,
    pub contact_email: String,
    pub seal_line1: String,
    pub seal_line2: String,
    pub material_label_ja: String,
    pub total_jpy: i64,
    pub created_at: Timestamp,
    pub updated_at: Timestamp,
    pub events: Vec<OrderEvent>,
}

/// What an order holds.
pub struct OrderView {
    pub id: Seq<char>,
    pub order_no: Seq<char>,
    pub channel: Seq<char>,
    pub locale: Seq<char>,
    pub status: Seq<char>,
    pub status_updated_at: Timestamp,
    pub payment_status: Seq<char>,
    pub fulfillment_status: Seq<char>,
    pub tracking_no: Seq<char>,
    pub carrier: Seq<char>,
    pub country_code: Seq<char>,
    pub contact_email: Seq<char>,
    pub seal_line1: Seq<char>,
    pub seal_line2: Seq<char>,
    pub material_label_ja: Seq<char>,
    pub total_jpy: i64,
    pub created_at: Timestamp,
    pub updated_at: Timestamp,
    pub events: Seq<OrderEventView>,
}

/// What a list of audit entries says, entry by entry.
pub open spec fn events_view(events: Seq<OrderEvent>) -> Seq<OrderEventView> {
    events.map_values(|e: OrderEvent| e@)
}

impl View for Order {
    type V = OrderView;

    open spec fn view(&self) -> OrderView {
        OrderView {
            id: self.id@,
            order_no: self.order_no@,
            channel: self.channel@,
            locale: self.locale@,
            status: self.status@,
            status_updated_at: self.status_updated_at,
            payment_status: self.payment_status@,
            fulfillment_status: self.fulfillment_status@,
            tracking_no: self.tracking_no@,
            carrier: self.carrier@,
            country_code: self.country_code@,
            contact_email: self.contact_email@,
            seal_line1: self.seal_line1@,
            seal_line2: self.seal_line2@,
            material_label_ja: self.material_label_ja@,
            total_jpy: self.total_jpy,
            created_at: self.created_at,
            updated_at: self.updated_at,
            events: events_view(self.events@),
        }
    }
}

impl Clone for Order {
    fn clone(&self) -> (r: Self)
        ensures
            r@ == self@,
    {
        let mut events: Vec<OrderEvent> = Vec::new();
        let mut i: usize = 0;
        while i < self.events.len()
            invariant
                i <= self.events@.len(),
                events@.len() == i,
                forall|j: int| 0 <= j < i ==> (#[trigger] events@[j])@ == self.events@[j]@,
            decreases self.events@.len() - i,
        {
            events.push(self.events[i].clone());
            i += 1;
        }
        assert(events_view(events@) =~= events_view(self.events@));
        Order {
            id: self.id.clone(),
            order_no: self.order_no.clone(),
            channel: self.channel.clone(),
            locale: self.locale.clone(),
            status: self.status.clone(),
            status_updated_at: self.status_updated_at,
            payment_status: self.payment_status.clone(),
            fulfillment_status: self.fulfillment_status.clone(),
            tracking_no: self.tracking_no.clone(),
            carrier: self.carrier.clone(),
            country_code: self.country_code.clone(),
            contact_email: self.contact_email.clone(),
            seal_line1: self.seal_line1.clone(),
            seal_line2: self.seal_line2.clone(),
            material_label_ja: self.material_label_ja.clone(),
            total_jpy: self.total_jpy,
            created_at: self.created_at,
            updated_at: self.updated_at,
            events,
        }
    }
}

impl OrderView {
    /// Whether the payment and fulfillment statuses are those that follow
    /// from the order status, given the fulfillment status held before.
    pub open spec fn statuses_derived_from(self, previous_fulfillment: Seq<char>) -> bool {
        &&& self.payment_status == derived_payment(self.status)
        &&& self.fulfillment_status == derived_fulfillment(self.status, previous_fulfillment)
    }
}

/// The payment and fulfillment statuses that follow from an order status.
/// `existing_fulfillment` is kept where the order status decides nothing.
pub fn derive_statuses(status: &str, existing_fulfillment: &str) -> (r: (String, String))
    ensures
        r.0@ == derived_payment(status@),
        r.1@ == derived_fulfillment(status@, existing_fulfillment@),
{
    let kept: String = if existing_fulfillment.is_empty() {
        "pending".to_owned()
    } else {
        existing_fulfillment.to_owned()
    };
    match parse_status(status) {
        Some(OrderStatus::PendingPayment) => ("unpaid".to_owned(), "pending".to_owned()),
        Some(OrderStatus::Paid) => ("paid".to_owned(), "pending".to_owned()),
        Some(OrderStatus::Manufacturing) => ("paid".to_owned(), "manufacturing".to_owned()),
        Some(OrderStatus::Shipped) => ("paid".to_owned(), "shipped".to_owned()),
        Some(OrderStatus::Delivered) => ("paid".to_owned(), "delivered".to_owned()),
        Some(OrderStatus::Canceled) => ("failed".to_owned(), "pending".to_owned()),
        Some(OrderStatus::Refunded) => ("refunded".to_owned(), kept),
        None => ("processing".to_owned(), kept),
    }
}

/// Overwrites the payment and fulfillment statuses of `order` with those that
/// follow from its status. Nothing else changes.
pub fn apply_derived_statuses(order: &mut Order)
    ensures
        final(order)@ == (OrderView {
            payment_status: derived_payment(old(order).status@),
            fulfillment_status: derived_fulfillment(
                old(order).status@,
                old(order).fulfillment_status@,
            ),
            ..old(order)@
        }),
        final(order)@.statuses_derived_from(old(order).fulfillment_status@),
{
    let derived = derive_statuses(order.status.as_str(), order.fulfillment_status.as_str());
    order.payment_status = derived.0;
    order.fulfillment_status = derived.1;
}

/// Fills in a payment or fulfillment status that is empty with the one that
/// follows from the order status. A status that is present stays, and so does
/// the order status.
pub fn fill_derived_statuses(order: &mut Order)
    ensures
        final(order)@ == (OrderView {
            payment_status: if old(order).payment_status@.len() == 0 {
                derived_payment(old(order).status@)
            } else {
                old(order).payment_status@
            },
            fulfillment_status: if old(order).fulfillment_status@.len() == 0 {
                derived_fulfillment(old(order).status@, Seq::<char>::empty())
            } else {
                old(order).fulfillment_status@
            },
            ..old(order)@
        }),
{
    if !order.payment_status.as_str().is_empty() && !order.fulfillment_status.as_str().is_empty() {
        return ;
    }
    let derived = derive_statuses(order.status.as_str(), order.fulfillment_status.as_str());
    if order.payment_status.as_str().is_empty() {
        order.payment_status = derived.0;
    }
    if order.fulfillment_status.as_str().is_empty() {
        order.fulfillment_status = derived.1;
    }
}

/// Why a manual change of an order was refused.
#[derive(Debug)]
pub enum TransitionError {
    /// No order has the id that was given.
    NotFound,
    /// No target status was given.
    EmptyTarget,
    /// The target is the status that the order already has.
    SameStatus,
    /// The transition table does not allow the move.
    IllegalTransition { from: String, to: String },
    /// No carrier was given.
    MissingCarrier,
    /// No tracking number was given.
    MissingTrackingNo,
}

/// The audit entry of a status change made by an operator.
pub open spec fn status_changed_event(
    before: Seq<char>,
    after: Seq<char>,
    actor_id: Seq<char>,
    now: Timestamp,
) -> OrderEventView {
    OrderEventView {
        kind: "status_changed"@,
        actor_type: "admin"@,
        actor_id: trimmed(actor_id),
        before_status: before,
        after_status: after,
        note: Seq::<char>::empty(),
        created_at: now,
    }
}

/// The audit entry of a shipment registered by an operator.
pub open spec fn shipment_registered_event(
    carrier: Seq<char>,
    tracking_no: Seq<char>,
    actor_id: Seq<char>,
    now: Timestamp,
) -> OrderEventView {
    OrderEventView {
        kind: "shipment_registered"@,
        actor_type: "admin"@,
        actor_id: trimmed(actor_id),
        before_status: Seq::<char>::empty(),
        after_status: Seq::<char>::empty(),
        note: trimmed(carrier) + " / "@ + trimmed(tracking_no),
        created_at: now,
    }
}

/// The order after an operator moved it to `target` at `now`.
pub open spec fn order_after_status_change(
    order: OrderView,
    target: Seq<char>,
    actor_id: Seq<char>,
    now: Timestamp,
) -> OrderView {
    OrderView {
        status: target,
        status_updated_at: now,
        updated_at: now,
        payment_status: derived_payment(target),
        fulfillment_status: derived_fulfillment(target, order.fulfillment_status),
        events: order.events.push(status_changed_event(order.status, target, actor_id, now)),
        ..order
    }
}

/// Why a status change to `target` is refused, if it is.
pub open spec fn status_change_refusal(current: Seq<char>, target: Seq<char>) -> Option<
    TransitionRefusal,
> {
    if target.len() == 0 {
        Some(TransitionRefusal::EmptyTarget)
    } else if current == target {
        Some(TransitionRefusal::SameStatus)
    } else if !may_transition(current, target) {
        Some(TransitionRefusal::IllegalTransition)
    } else {
        None
    }
}

/// The reasons for refusing a manual change, without their details.
pub enum TransitionRefusal {
    NotFound,
    EmptyTarget,
    SameStatus,
    IllegalTransition,
    MissingCarrier,
    MissingTrackingNo,
}

impl TransitionError {
    /// The reason, without its details.
    pub open spec fn refusal(self) -> TransitionRefusal {
        match self {
            TransitionError::NotFound => TransitionRefusal::NotFound,
            TransitionError::EmptyTarget => TransitionRefusal::EmptyTarget,
            TransitionError::SameStatus => TransitionRefusal::SameStatus,
            TransitionError::IllegalTransition { .. } => TransitionRefusal::IllegalTransition,
            TransitionError::MissingCarrier => TransitionRefusal::MissingCarrier,
            TransitionError::MissingTrackingNo => TransitionRefusal::MissingTrackingNo,
        }
    }

    /// For an illegal transition, the statuses it names.
    pub open spec fn names(self, from: Seq<char>, to: Seq<char>) -> bool {
        match self {
            TransitionError::IllegalTransition { from: f, to: t } => f@ == from && t@ == to,
            _ => true,
        }
    }
}

impl TransitionError {
    /// The message for the operator. A status change and a shipping update
    /// word the refusal of the order's own status differently.
    pub open spec fn message_text(self, for_shipping: bool) -> Seq<char> {
        match self {
            TransitionError::NotFound => "注文が見つかりません。"@,
            TransitionError::EmptyTarget => "更新先のステータスを選択してください。"@,
            TransitionError::SameStatus => if for_shipping {
                "現在と同じステータスは指定できません。"@
            } else {
                "現在と同じステータスには更新できません。"@
            },
            TransitionError::IllegalTransition { from, to } => order_status_label_text(from@)
                + " から "@ + order_status_label_text(to@) + " には遷移できません。"@,
            TransitionError::MissingCarrier => "配送業者を入力してください。"@,
            TransitionError::MissingTrackingNo => "追跡番号を入力してください。"@,
        }
    }

    /// The message for the operator; `for_shipping` says whether a shipping
    /// update was refused, or a status change.
    pub fn message(&self, for_shipping: bool) -> (r: String)
        ensures
            r@ == self.message_text(for_shipping),
    {
        match self {
            TransitionError::NotFound => "注文が見つかりません。".to_owned(),
            TransitionError::EmptyTarget => "更新先のステータスを選択してください。".to_owned(),
            TransitionError::SameStatus => if for_shipping {
                "現在と同じステータスは指定できません。".to_owned()
            } else {
                "現在と同じステータスには更新できません。".to_owned()
            },
            TransitionError::IllegalTransition { from, to } => {
                let mut text: String = order_status_label(from.as_str()).to_owned();
                text.append(" から ");
                text.append(order_status_label(to.as_str()));
                text.append(" には遷移できません。");
                text
            },
            TransitionError::MissingCarrier => "配送業者を入力してください。".to_owned(),
            TransitionError::MissingTrackingNo => "追跡番号を入力してください。".to_owned(),
        }
    }
}

/// Moves `order` to `next_status` on behalf of an operator, if the transition
/// table allows it: the status and both derived statuses change together, and
/// one `status_changed` entry joins the audit log. A refused change leaves the
/// order as it was. The entry is returned so that it can be stored.
pub fn update_order_status(
    order: &mut Order,
    next_status: &str,
    actor_id: &str,
    now: Timestamp,
) -> (r: Result<OrderEvent, TransitionError>)
    ensures
        r is Ok <==> may_transition(old(order).status@, trimmed(next_status@)),
        match r {
            Ok(event) => {
                &&& final(order)@ == order_after_status_change(
                    old(order)@,
                    trimmed(next_status@),
                    actor_id@,
                    now,
                )
                &&& event@ == status_changed_event(
                    old(order).status@,
                    trimmed(next_status@),
                    actor_id@,
                    now,
                )
                &&& final(order)@.statuses_derived_from(old(order).fulfillment_status@)
            },
            Err(e) => {
                &&& *final(order) == *old(order)
                &&& Some(e.refusal()) == status_change_refusal(
                    old(order).status@,
                    trimmed(next_status@),
                )
                &&& e.names(old(order).status@, trimmed(next_status@))
            },
        },
{
    let target = trim(next_status);
    if target.is_empty() {
        proof {
            lemma_empty_text_is_no_status(target@);
        }
        return Err(TransitionError::EmptyTarget);
    }
    if same_text(order.status.as_str(), target) {
        return Err(TransitionError::SameStatus);
    }
    if !can_transition(order.status.as_str(), target) {
        return Err(
            TransitionError::IllegalTransition { from: order.status.clone(), to: target.to_owned() },
        );
    }
    let event = OrderEvent {
        kind: "status_changed".to_owned(),
        actor_type: "admin".to_owned(),
        actor_id: trim_owned(actor_id),
        before_status: order.status.clone(),
        after_status: target.to_owned(),
        note: String::new(),
        created_at: now,
    };
    order.status = target.to_owned();
    order.status_updated_at = now;
    order.updated_at = now;
    apply_derived_statuses(order);
    let logged = event.clone();
    order.events.push(logged);
    proof {
        assert(final(order)@.events =~= old(order)@.events.push(event@));
    }
    Ok(event)
}

/// Whether a shipping update asks for a status change as well: `none`, like
/// an empty text, asks for none.
pub open spec fn bundles_transition(transition: Seq<char>) -> bool {
    trimmed(transition).len() != 0 && trimmed(transition) != "none"@
}

/// Why a shipping update is refused, if it is.
pub open spec fn shipping_refusal(
    current: Seq<char>,
    carrier: Seq<char>,
    tracking_no: Seq<char>,
    transition: Seq<char>,
) -> Option<TransitionRefusal> {
    if trimmed(carrier).len() == 0 {
        Some(TransitionRefusal::MissingCarrier)
    } else if trimmed(tracking_no).len() == 0 {
        Some(TransitionRefusal::MissingTrackingNo)
    } else if !bundles_transition(transition) {
        None
    } else if current == trimmed(transition) {
        Some(TransitionRefusal::SameStatus)
    } else if !may_transition(current, trimmed(transition)) {
        Some(TransitionRefusal::IllegalTransition)
    } else {
        None
    }
}

/// The audit entries that a shipping update adds, in order.
pub open spec fn shipping_events(
    current: Seq<char>,
    carrier: Seq<char>,
    tracking_no: Seq<char>,
    transition: Seq<char>,
    actor_id: Seq<char>,
    now: Timestamp,
) -> Seq<OrderEventView> {
    let shipment = shipment_registered_event(carrier, tracking_no, actor_id, now);
    if bundles_transition(transition) {
        seq![shipment, status_changed_event(current, trimmed(transition), actor_id, now)]
    } else {
        seq![shipment]
    }
}

/// The order after an accepted shipping update.
pub open spec fn order_after_shipping(
    order: OrderView,
    carrier: Seq<char>,
    tracking_no: Seq<char>,
    transition: Seq<char>,
    actor_id: Seq<char>,
    now: Timestamp,
) -> OrderView {
    let shipped = OrderView {
        carrier: trimmed(carrier),
        tracking_no: trimmed(tracking_no),
        updated_at: now,
        events: order.events + shipping_events(
            order.status,
            carrier,
            tracking_no,
            transition,
            actor_id,
            now,
        ),
        ..order
    };
    if bundles_transition(transition) {
        OrderView {
            status: trimmed(transition),
            status_updated_at: now,
            payment_status: derived_payment(trimmed(transition)),
            fulfillment_status: derived_fulfillment(trimmed(transition), order.fulfillment_status),
            ..shipped
        }
    } else {
        shipped
    }
}

/// Registers a shipment on behalf of an operator, and with it a status change
/// where `transition` names one. Carrier and tracking number must not be
/// blank, and a status change must be one that the transition table allows:
/// otherwise the order stays as it was. The new audit entries are returned so
/// that they can be stored.
pub fn update_shipping(
    order: &mut Order,
    carrier: &str,
    tracking_no: &str,
    transition: &str,
    actor_id: &str,
    now: Timestamp,
) -> (r: Result<Vec<OrderEvent>, TransitionError>)
    ensures
        r is Ok <==> shipping_refusal(old(order).status@, carrier@, tracking_no@, transition@)
            is None,
        match r {
            Ok(events) => {
                &&& final(order)@ == order_after_shipping(
                    old(order)@,
                    carrier@,
                    tracking_no@,
                    transition@,
                    actor_id@,
                    now,
                )
                &&& events_view(events@) == shipping_events(
                    old(order).status@,
                    carrier@,
                    tracking_no@,
                    transition@,
                    actor_id@,
                    now,
                )
                &&& bundles_transition(transition@) ==> final(order)@.statuses_derived_from(
                    old(order).fulfillment_status@,
                )
            },
            Err(e) => {
                &&& *final(order) == *old(order)
                &&& Some(e.refusal()) == shipping_refusal(
                    old(order).status@,
                    carrier@,
                    tracking_no@,
                    transition@,
                )
                &&& e.names(old(order).status@, trimmed(transition@))
            },
        },
{
    let carrier_text = trim(carrier);
    if carrier_text.is_empty() {
        return Err(TransitionError::MissingCarrier);
    }
    let tracking_text = trim(tracking_no);
    if tracking_text.is_empty() {
        return Err(TransitionError::MissingTrackingNo);
    }
    let target = trim(transition);
    let bundled: bool = !target.is_empty() && !same_text(target, "none");
    if bundled {
        if same_text(order.status.as_str(), target) {
            return Err(TransitionError::SameStatus);
        }
        if !can_transition(order.status.as_str(), target) {
            return Err(
                TransitionError::IllegalTransition {
                    from: order.status.clone(),
                    to: target.to_owned(),
                },
            );
        }
    }
    let mut events: Vec<OrderEvent> = Vec::new();
    let mut note: String = carrier_text.to_owned();
    note.append(" / ");
    note.append(tracking_text);
    let shipment = OrderEvent {
        kind: "shipment_registered".to_owned(),
        actor_type: "admin".to_owned(),
        actor_id: trim_owned(actor_id),
        before_status: String::new(),
        after_status: String::new(),
        note,
        created_at: now,
    };
    order.carrier = carrier_text.to_owned();
    order.tracking_no = tracking_text.to_owned();
    order.updated_at = now;
    order.events.push(shipment.clone());
    events.push(shipment);
    let ghost logged = order@.events;
    assert(logged =~= old(order)@.events.push(shipment@));
    if bundled {
        let change = OrderEvent {
            kind: "status_changed".to_owned(),
            actor_type: "admin".to_owned(),
            actor_id: trim_owned(actor_id),
            before_status: order.status.clone(),
            after_status: target.to_owned(),
            note: String::new(),
            created_at: now,
        };
        order.status = target.to_owned();
        order.status_updated_at = now;
        apply_derived_statuses(order);
        order.events.push(change.clone());
        events.push(change);
        assert(order@.events =~= logged.push(change@));
    }
    proof {
        let added = shipping_events(
            old(order).status@,
            carrier@,
            tracking_no@,
            transition@,
            actor_id@,
            now,
        );
        assert(events_view(events@) =~= added);
        assert(final(order)@.events =~= old(order)@.events + added);
    }
    Ok(events)
}

/// What a list of orders holds, order by order.
pub open spec fn orders_view(orders: Seq<Order>) -> Seq<OrderView> {
    orders.map_values(|o: Order| o@)
}

/// The index of the first order at or after `from` whose id is `order_id`.
pub open spec fn position_from(orders: Seq<OrderView>, order_id: Seq<char>, from: int) -> Option<
    int,
>
    decreases orders.len() - from,
{
    if from < 0 || from >= orders.len() {
        None
    } else if orders[from].id == order_id {
        Some(from)
    } else {
        position_from(orders, order_id, from + 1)
    }
}

/// The index of the first order whose id is `order_id`.
pub open spec fn position_of(orders: Seq<OrderView>, order_id: Seq<char>) -> Option<int> {
    position_from(orders, order_id, 0)
}

/// Whether no two orders of a snapshot have the same id: what a snapshot
/// keyed by id holds by its making.
pub open spec fn distinct_order_ids(orders: Seq<OrderView>) -> bool {
    forall|i: int, j: int| 0 <= i < j < orders.len() ==> orders[i].id != orders[j].id
}

/// In a snapshot without repeated ids, the order with an id is found
/// wherever it stands.
pub proof fn lemma_order_is_found(orders: Seq<OrderView>, i: int, from: int)
    requires
        distinct_order_ids(orders),
        0 <= from <= i < orders.len(),
    ensures
        position_from(orders, orders[i].id, from) == Some(i),
    decreases i - from,
{
    if from < i {
        lemma_order_is_found(orders, i, from + 1);
    }
}

/// Finds the order with the id `order_id` in the snapshot.
pub fn find_order(orders: &Vec<Order>, order_id: &str) -> (r: Option<usize>)
    ensures
        match r {
            Some(i) => position_of(orders_view(orders@), order_id@) == Some(i as int) && i
                < orders@.len(),
            None => position_of(orders_view(orders@), order_id@) is None,
        },
{
    let mut i: usize = 0;
    while i < orders.len()
        invariant
            i <= orders@.len(),
            position_of(orders_view(orders@), order_id@) == position_from(
                orders_view(orders@),
                order_id@,
                i as int,
            ),
        decreases orders@.len() - i,
    {
        assert(orders_view(orders@)[i as int] == orders@[i as int]@);
        if same_text(orders[i].id.as_str(), order_id) {
            return Some(i);
        }
        i += 1;
    }
    None
}

/// Why a status change of the order `order_id` of a snapshot is refused, if
/// it is: the target is looked at before the order is looked for.
pub open spec fn snapshot_status_refusal(
    orders: Seq<OrderView>,
    order_id: Seq<char>,
    target: Seq<char>,
) -> Option<TransitionRefusal> {
    if target.len() == 0 {
        Some(TransitionRefusal::EmptyTarget)
    } else {
        match position_of(orders, order_id) {
            None => Some(TransitionRefusal::NotFound),
            Some(i) => status_change_refusal(orders[i].status, target),
        }
    }
}

/// Moves the order `order_id` of the snapshot to `next_status` on behalf of
/// an operator. Where the change is refused, the snapshot stays as it was;
/// otherwise that one order changes as `update_order_status` says, and no other.
pub fn update_order_status_in(
    orders: &mut Vec<Order>,
    order_id: &str,
    next_status: &str,
    actor_id: &str,
    now: Timestamp,
) -> (r: Result<OrderEvent, TransitionError>)
    ensures
        r is Ok <==> snapshot_status_refusal(
            orders_view(old(orders)@),
            order_id@,
            trimmed(next_status@),
        ) is None,
        distinct_order_ids(orders_view(old(orders)@)) ==> distinct_order_ids(
            orders_view(final(orders)@),
        ),
        match r {
            Ok(event) => {
                let i = position_of(orders_view(old(orders)@), order_id@).unwrap();
                &&& orders_view(final(orders)@) == orders_view(old(orders)@).update(
                    i,
                    order_after_status_change(
                        old(orders)@[i]@,
                        trimmed(next_status@),
                        actor_id@,
                        now,
                    ),
                )
                &&& event@ == status_changed_event(
                    old(orders)@[i].status@,
                    trimmed(next_status@),
                    actor_id@,
                    now,
                )
            },
            Err(e) => {
                &&& orders_view(final(orders)@) == orders_view(old(orders)@)
                &&& Some(e.refusal()) == snapshot_status_refusal(
                    orders_view(old(orders)@),
                    order_id@,
                    trimmed(next_status@),
                )
            },
        },
{
    if trim(next_status).is_empty() {
        return Err(TransitionError::EmptyTarget);
    }
    let i: usize = match find_order(orders, order_id) {
        Some(i) => i,
        None => {
            return Err(TransitionError::NotFound);
        },
    };
    assert(orders_view(orders@)[i as int] == orders@[i as int]@);
    let mut order: Order = orders.remove(i);
    let r = update_order_status(&mut order, next_status, actor_id, now);
    orders.insert(i, order);
    proof {
        assert(final(orders)@ =~= old(orders)@.update(i as int, order));
        assert(orders_view(final(orders)@) =~= orders_view(old(orders)@).update(i as int, order@));
        if r is Err {
            assert(orders_view(final(orders)@) =~= orders_view(old(orders)@));
        }
    }
    r
}

/// Why a shipping update of the order `order_id` of a snapshot is refused,
/// if it is: carrier and tracking number are looked at before the order is
/// looked for.
pub open spec fn snapshot_shipping_refusal(
    orders: Seq<OrderView>,
    order_id: Seq<char>,
    carrier: Seq<char>,
    tracking_no: Seq<char>,
    transition: Seq<char>,
) -> Option<TransitionRefusal> {
    if trimmed(carrier).len() == 0 {
        Some(TransitionRefusal::MissingCarrier)
    } else if trimmed(tracking_no).len() == 0 {
        Some(TransitionRefusal::MissingTrackingNo)
    } else {
        match position_of(orders, order_id) {
            None => Some(TransitionRefusal::NotFound),
            Some(i) => shipping_refusal(orders[i].status, carrier, tracking_no, transition),
        }
    }
}

/// Registers a shipment for the order `order_id` of the snapshot. Where the
/// update is refused, the snapshot stays as it was; otherwise that one order
/// changes as `update_shipping` says, and no other.
pub fn update_shipping_in(
    orders: &mut Vec<Order>,
    order_id: &str,
    carrier: &str,
    tracking_no: &str,
    transition: &str,
    actor_id: &str,
    now: Timestamp,
) -> (r: Result<Vec<OrderEvent>, TransitionError>)
    ensures
        r is Ok <==> snapshot_shipping_refusal(
            orders_view(old(orders)@),
            order_id@,
            carrier@,
            tracking_no@,
            transition@,
        ) is None,
        distinct_order_ids(orders_view(old(orders)@)) ==> distinct_order_ids(
            orders_view(final(orders)@),
        ),
        match r {
            Ok(events) => {
                let i = position_of(orders_view(old(orders)@), order_id@).unwrap();
                &&& orders_view(final(orders)@) == orders_view(old(orders)@).update(
                    i,
                    order_after_shipping(
                        old(orders)@[i]@,
                        carrier@,
                        tracking_no@,
                        transition@,
                        actor_id@,
                        now,
                    ),
                )
                &&& events_view(events@) == shipping_events(
                    old(orders)@[i].status@,
                    carrier@,
                    tracking_no@,
                    transition@,
                    actor_id@,
                    now,
                )
            },
            Err(e) => {
                &&& orders_view(final(orders)@) == orders_view(old(orders)@)
                &&& Some(e.refusal()) == snapshot_shipping_refusal(
                    orders_view(old(orders)@),
                    order_id@,
                    carrier@,
                    tracking_no@,
                    transition@,
                )
            },
        },
{
    if trim(carrier).is_empty() {
        return Err(TransitionError::MissingCarrier);
    }
    if trim(tracking_no).is_empty() {
        return Err(TransitionError::MissingTrackingNo);
    }
    let i: usize = match find_order(orders, order_id) {
        Some(i) => i,
        None => {
            return Err(TransitionError::NotFound);
        },
    };
    assert(orders_view(orders@)[i as int] == orders@[i as int]@);
    let mut order: Order = orders.remove(i);
    let r = update_shipping(&mut order, carrier, tracking_no, transition, actor_id, now);
    orders.insert(i, order);
    proof {
        assert(final(orders)@ =~= old(orders)@.update(i as int, order));
        assert(orders_view(final(orders)@) =~= orders_view(old(orders)@).update(i as int, order@));
        if r is Err {
            assert(orders_view(final(orders)@) =~= orders_view(old(orders)@));
        }
    }
    r
}

/// The snapshot that stands after a mutation was handed to the store: the
/// mutated one where the store took it; where it did not, what a reload
/// brought, and the mutated one, now stale, where the reload failed too.
pub fn settle_snapshot(mutated: Vec<Order>, persisted: bool, reloaded: Option<Vec<Order>>) -> (r:
    Vec<Order>)
    ensures
        r == if persisted {
            mutated
        } else {
            match reloaded {
                Some(fresh) => fresh,
                None => mutated,
            }
        },
{
    if persisted {
        return mutated;
    }
    match reloaded {
        Some(fresh) => fresh,
        None => mutated,
    }
}

/// What a listing of orders is narrowed by; an empty member narrows nothing.
#[derive(Debug)]
pub struct OrderFilter {
    pub status: String,
    pub country: String,
    pub email: String,
}

/// Whether an order passes a filter: its status is the one asked for, its
/// country is the one asked for whatever the case of the letters, and its
/// contact's address holds the text asked for, both in lower case.
pub open spec fn passes_filter(order: OrderView, filter: OrderFilter) -> bool {
    &&& filter.status@.len() == 0 || order.status == filter.status@
    &&& filter.country@.len() == 0 || ascii_lowercase(order.country_code) == ascii_lowercase(
        filter.country@,
    )
    &&& filter.email@.len() == 0 || contains_text(
        lowercase(order.contact_email),
        lowercase(filter.email@),
    )
}

/// Whether `order` passes `filter`.
pub fn order_matches(order: &Order, filter: &OrderFilter) -> (r: bool)
    ensures
        r == passes_filter(order@, *filter),
{
    if !filter.status.as_str().is_empty() && !same_text(
        order.status.as_str(),
        filter.status.as_str(),
    ) {
        return false;
    }
    if !filter.country.as_str().is_empty() {
        let have: Vec<char> = to_ascii_lowercase(&chars_of(order.country_code.as_str()));
        let want: Vec<char> = to_ascii_lowercase(&chars_of(filter.country.as_str()));
        if !same_chars(&have, &want) {
            return false;
        }
    }
    if !filter.email.as_str().is_empty() {
        let have: Vec<char> = chars_of(to_lowercase(order.contact_email.as_str()).as_str());
        let want: Vec<char> = chars_of(to_lowercase(filter.email.as_str()).as_str());
        if !has_text(&have, &want) {
            return false;
        }
    }
    true
}

/// The indices, among the first `count` orders, of those that pass the
/// filter, in ascending order.
pub open spec fn passing_indices(orders: Seq<OrderView>, filter: OrderFilter, count: int) -> Seq<
    int,
>
    decreases count,
{
    if count <= 0 {
        Seq::<int>::empty()
    } else if passes_filter(orders[count - 1], filter) {
        passing_indices(orders, filter, count - 1).push(count - 1)
    } else {
        passing_indices(orders, filter, count - 1)
    }
}

/// The positions in the snapshot of the orders that pass `filter`, in the
/// order of the snapshot.
pub fn filter_orders(orders: &Vec<Order>, filter: &OrderFilter) -> (r: Vec<usize>)
    ensures
        r@.map_values(|i: usize| i as int) == passing_indices(
            orders_view(orders@),
            *filter,
            orders@.len() as int,
        ),
{
    let mut out: Vec<usize> = Vec::new();
    let mut i: usize = 0;
    assert(out@.map_values(|i: usize| i as int) =~= Seq::<int>::empty());
    while i < orders.len()
        invariant
            i <= orders@.len(),
            out@.map_values(|i: usize| i as int) == passing_indices(
                orders_view(orders@),
                *filter,
                i as int,
            ),
        decreases orders@.len() - i,
    {
        assert(orders_view(orders@)[i as int] == orders@[i as int]@);
        if order_matches(&orders[i], filter) {
            let ghost before = out@.map_values(|i: usize| i as int);
            out.push(i);
            assert(out@.map_values(|i: usize| i as int) =~= before.push(i as int));
        }
        i += 1;
    }
    out
}

/// Whether the instant `a` is later than `b`.
pub open spec fn later(a: Timestamp, b: Timestamp) -> bool {
    a.seconds > b.seconds || (a.seconds == b.seconds && a.nanos > b.nanos)
}

/// Whether `order` lists the first `count` positions of `times`, each once,
/// the later instant first, and positions of the same instant in ascending
/// order.
pub open spec fn lists_newest_first(times: Seq<Timestamp>, order: Seq<usize>, count: int) -> bool {
    &&& order.len() == count
    &&& forall|i: int| 0 <= i < order.len() ==> (#[trigger] order[i]) < count
    &&& forall|i: int, j: int| 0 <= i < j < order.len() ==> order[i] != order[j]
    &&& forall|i: int, j: int|
        0 <= i < j < order.len() ==> !later(times[order[j] as int], times[order[i] as int])
    &&& forall|i: int, j: int|
        0 <= i < j < order.len() && times[order[i] as int] == times[order[j] as int] ==> order[i]
            < order[j]
}

impl Timestamp {
    /// Whether this instant is later than `other`.
    pub fn is_later_than(self, other: Timestamp) -> (r: bool)
        ensures
            r == later(self, other),
    {
        self.seconds > other.seconds || (self.seconds == other.seconds && self.nanos > other.nanos)
    }
}

/// The positions of `times`, the latest instant first; positions of the same
/// instant stay in their order.
pub fn newest_first(times: &Vec<Timestamp>) -> (r: Vec<usize>)
    ensures
        lists_newest_first(times@, r@, times@.len() as int),
{
    let n: usize = times.len();
    let mut out: Vec<usize> = Vec::new();
    let mut k: usize = 0;
    while k < n
        invariant
            k <= n,
            n == times@.len(),
            lists_newest_first(times@, out@, k as int),
        decreases n - k,
    {
        let mut p: usize = 0;
        while p < out.len() && !times[k].is_later_than(times[out[p]])
            invariant
                p <= out@.len(),
                k < n,
                n == times@.len(),
                lists_newest_first(times@, out@, k as int),
                forall|i: int| 0 <= i < p ==> !later(times@[k as int], times@[out@[i] as int]),
            decreases out@.len() - p,
        {
            p += 1;
        }
        let ghost before = out@;
        out.insert(p, k);
        proof {
            let after = out@;
            assert(after == before.insert(p as int, k));
            assert forall|i: int| 0 <= i < after.len() implies (#[trigger] after[i]) < k + 1 by {
                if i < p {
                    assert(after[i] == before[i]);
                } else if i > p {
                    assert(after[i] == before[i - 1]);
                }
            }
            assert forall|i: int, j: int| 0 <= i < j < after.len() implies after[i] != after[j]
                && !later(times@[after[j] as int], times@[after[i] as int]) && (times@[after[i] as int]
                == times@[after[j] as int] ==> after[i] < after[j]) by {
                let a = if i < p {
                    i
                } else {
                    i - 1
                };
                let b = if j < p {
                    j
                } else {
                    j - 1
                };
                if i != p && j != p {
                    assert(after[i] == before[a] && after[j] == before[b]);
                    assert(a < b);
                } else if i == p {
                    assert(after[j] == before[b]);
                    assert(before[b] < k);
                    if p < before.len() {
                        assert(later(times@[k as int], times@[before[p as int] as int]));
                        if b > p {
                            assert(!later(times@[before[b] as int], times@[before[p as int] as int]));
                        }
                    }
                } else {
                    assert(after[i] == before[a]);
                    assert(before[a] < k);
                }
            }
        }
        k += 1;
    }
    out
}

/// Whether `ids` are the ids of `orders` at the positions `order`, and
/// `order` lists the orders newest first.
pub open spec fn ids_newest_first(orders: Seq<Order>, order: Seq<usize>, ids: Seq<String>) -> bool {
    &&& lists_newest_first(orders.map_values(|o: Order| o.created_at), order, orders.len() as int)
    &&& ids.len() == orders.len()
    &&& forall|i: int| 0 <= i < ids.len() ==> (#[trigger] ids[i])@ == orders[order[i] as int].id@
}

/// The ids of the orders of a snapshot, the order created last first; orders
/// created at the same instant stay in their order.
pub fn refresh_order_ids(orders: &Vec<Order>) -> (r: Vec<String>)
    ensures
        (exists|order: Seq<usize>| #[trigger] ids_newest_first(orders@, order, r@)),
{
    let mut times: Vec<Timestamp> = Vec::new();
    let mut i: usize = 0;
    while i < orders.len()
        invariant
            i <= orders@.len(),
            times@ == orders@.subrange(0, i as int).map_values(|o: Order| o.created_at),
        decreases orders@.len() - i,
    {
        times.push(orders[i].created_at);
        assert(times@ =~= orders@.subrange(0, i as int + 1).map_values(|o: Order| o.created_at));
        i += 1;
    }
    assert(orders@.subrange(0, orders@.len() as int) =~= orders@);
    let order: Vec<usize> = newest_first(&times);
    let mut ids: Vec<String> = Vec::new();
    let mut j: usize = 0;
    while j < order.len()
        invariant
            j <= order@.len(),
            order@.len() == orders@.len(),
            lists_newest_first(times@, order@, orders@.len() as int),
            ids@.len() == j,
            forall|i: int| 0 <= i < j ==> (#[trigger] ids@[i])@ == orders@[order@[i] as int].id@,
        decreases order@.len() - j,
    {
        assert(order@[j as int] < orders@.len());
        ids.push(orders[order[j]].id.clone());
        j += 1;
    }
    assert(ids_newest_first(orders@, order@, ids@));
    ids
}

/// Which of the two fulfillment dates a stored order is stamped with: the
/// date of shipping where its fulfillment status is `shipped`, the date of
/// delivery where it is `delivered`.
pub fn fulfillment_stamps(fulfillment_status: &str) -> (r: (bool, bool))
    ensures
        r.0 == (fulfillment_status@ == "shipped"@),
        r.1 == (fulfillment_status@ == "delivered"@),
{
    (same_text(fulfillment_status, "shipped"), same_text(fulfillment_status, "delivered"))
}

} // verus!
