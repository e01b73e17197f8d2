use vstd::prelude::*;
use crate::text::same_text;

verus! {

/// The closed set of order statuses.
#[derive(Clone, Copy, Debug, PartialEq, Eq, Structural)]
pub enum OrderStatus {
    PendingPayment,
    Paid,
    Manufacturing,
    Shipped,
    Delivered,
    Canceled,
    Refunded,
}

/// The stored text of a status.
pub open spec fn status_text(status: OrderStatus) -> Seq<char> {
    match status {
        OrderStatus::PendingPayment => "pending_payment"@,
        OrderStatus::Paid => "paid"@,
        OrderStatus::Manufacturing => "manufacturing"@,
        OrderStatus::Shipped => "shipped"@,
        OrderStatus::Delivered => "delivered"@,
        OrderStatus::Canceled => "canceled"@,
        OrderStatus::Refunded => "refunded"@,
    }
}

/// The status that a stored text names, if it names one.
pub open spec fn status_of(text: Seq<char>) -> Option<OrderStatus> {
    if text == "pending_payment"@ {
        Some(OrderStatus::PendingPayment)
    } else if text == "paid"@ {
        Some(OrderStatus::Paid)
    } else if text == "manufacturing"@ {
        Some(OrderStatus::Manufacturing)
    } else if text == "shipped"@ {
        Some(OrderStatus::Shipped)
    } else if text == "delivered"@ {
        Some(OrderStatus::Delivered)
    } else if text == "canceled"@ {
        Some(OrderStatus::Canceled)
    } else if text == "refunded"@ {
        Some(OrderStatus::Refunded)
    } else {
        None
    }
}

/// The transition table: whether an order in `current` may move to `next`.
pub open spec fn allowed_next(current: OrderStatus, next: OrderStatus) -> bool {
    match current {
        OrderStatus::PendingPayment => next == OrderStatus::Paid || next == OrderStatus::Canceled,
        OrderStatus::Paid => next == OrderStatus::Manufacturing || next == OrderStatus::Refunded,
        OrderStatus::Manufacturing => next == OrderStatus::Shipped || next == OrderStatus::Refunded,
        OrderStatus::Shipped => next == OrderStatus::Delivered || next == OrderStatus::Refunded,
        OrderStatus::Delivered | OrderStatus::Canceled | OrderStatus::Refunded => false,
    }
}

/// The transition table over stored texts. A text outside the closed set has
/// no way in and no way out.
pub open spec fn may_transition(current: Seq<char>, next: Seq<char>) -> bool {
    match (status_of(current), status_of(next)) {
        (Some(c), Some(n)) => allowed_next(c, n),
        _ => false,
    }
}

/// The statuses that may follow `current`, in the order in which they are offered.
pub open spec fn next_statuses(current: Seq<char>) -> Seq<OrderStatus> {
    match status_of(current) {
        Some(OrderStatus::PendingPayment) => seq![OrderStatus::Paid, OrderStatus::Canceled],
        Some(OrderStatus::Paid) => seq![OrderStatus::Manufacturing, OrderStatus::Refunded],
        Some(OrderStatus::Manufacturing) => seq![OrderStatus::Shipped, OrderStatus::Refunded],
        Some(OrderStatus::Shipped) => seq![OrderStatus::Delivered, OrderStatus::Refunded],
        _ => seq![],
    }
}

/// The payment status that follows from an order status.
pub open spec fn derived_payment(status: Seq<char>) -> Seq<char> {
    match status_of(status) {
        Some(OrderStatus::PendingPayment) => "unpaid"@,
        Some(OrderStatus::Paid) | Some(OrderStatus::Manufacturing) | Some(OrderStatus::Shipped)
        | Some(OrderStatus::Delivered) => "paid"@,
        Some(OrderStatus::Canceled) => "failed"@,
        Some(OrderStatus::Refunded) => "refunded"@,
        None => "processing"@,
    }
}

/// The fulfillment status that follows from an order status. A refunded order,
/// and one whose status is outside the closed set, keeps what it had, or
/// `pending` where it had nothing.
pub open spec fn derived_fulfillment(status: Seq<char>, existing: Seq<char>) -> Seq<char> {
    match status_of(status) {
        Some(OrderStatus::PendingPayment) | Some(OrderStatus::Paid) | Some(
            OrderStatus::Canceled,
        ) => "pending"@,
        Some(OrderStatus::Manufacturing) => "manufacturing"@,
        Some(OrderStatus::Shipped) => "shipped"@,
        Some(OrderStatus::Delivered) => "delivered"@,
        Some(OrderStatus::Refunded) | None => if existing.len() == 0 {
            "pending"@
        } else {
            existing
        },
    }
}

/// The seven status texts differ from one another, so each names its own status.
pub proof fn lemma_status_text_round_trip(status: OrderStatus)
    ensures
        status_of(status_text(status)) == Some(status),
{
    reveal_strlit("pending_payment");
    reveal_strlit("paid");
    reveal_strlit("manufacturing");
    reveal_strlit("shipped");
    reveal_strlit("delivered");
    reveal_strlit("canceled");
    reveal_strlit("refunded");
    assert("pending_payment"@.len() == 15);
    assert("paid"@.len() == 4);
    assert("manufacturing"@.len() == 13);
    assert("shipped"@.len() == 7);
    assert("delivered"@.len() == 9);
    assert("canceled"@.len() == 8);
    assert("refunded"@.len() == 8);
    assert("canceled"@[0] == 'c');
    assert("refunded"@[0] == 'r');
}

/// The empty text names no status.
pub proof fn lemma_empty_text_is_no_status(text: Seq<char>)
    requires
        text.len() == 0,
    ensures
        status_of(text) is None,
        forall|other: Seq<char>| !may_transition(text, other) && !may_transition(other, text),
{
    reveal_strlit("pending_payment");
    reveal_strlit("paid");
    reveal_strlit("manufacturing");
    reveal_strlit("shipped");
    reveal_strlit("delivered");
    reveal_strlit("canceled");
    reveal_strlit("refunded");
    assert("pending_payment"@.len() == 15);
    assert("paid"@.len() == 4);
    assert("manufacturing"@.len() == 13);
    assert("shipped"@.len() == 7);
    assert("delivered"@.len() == 9);
    assert("canceled"@.len() == 8);
    assert("refunded"@.len() == 8);
}

/// A text names a status exactly when it is that status's text.
pub proof fn lemma_status_of_text(text: Seq<char>, status: OrderStatus)
    ensures
        status_of(text) == Some(status) <==> text == status_text(status),
{
    lemma_status_text_round_trip(status);
}

/// The listed followers of a status are exactly those the table allows.
pub proof fn lemma_next_statuses_are_allowed(current: Seq<char>, next: Seq<char>)
    ensures
        may_transition(current, next) <==> (exists|i: int|
            0 <= i < next_statuses(current).len() && status_text(
                #[trigger] next_statuses(current)[i],
            ) == next),
{
    let list = next_statuses(current);
    if may_transition(current, next) {
        let n = status_of(next).unwrap();
        lemma_status_of_text(next, n);
        if list.len() == 2 {
            if list[0] == n {
                assert(status_text(list[0]) == next);
            } else {
                assert(list[1] == n);
                assert(status_text(list[1]) == next);
            }
        }
    }
    if exists|i: int| 0 <= i < list.len() && status_text(#[trigger] list[i]) == next {
        let i = choose|i: int| 0 <= i < list.len() && status_text(#[trigger] list[i]) == next;
        lemma_status_of_text(next, list[i]);
    }
}

/// No status may follow itself, and nothing follows a terminal status.
pub proof fn lemma_transition_shape(current: Seq<char>, next: Seq<char>)
    requires
        may_transition(current, next),
    ensures
        current != next,
        status_of(current) != Some(OrderStatus::Delivered),
        status_of(current) != Some(OrderStatus::Canceled),
        status_of(current) != Some(OrderStatus::Refunded),
{
}

impl OrderStatus {
    /// The stored text of this status.
    pub fn as_str(self) -> (r: &'static str)
        ensures
            r@ == status_text(self),
    {
        match self {
            OrderStatus::PendingPayment => "pending_payment",
            OrderStatus::Paid => "paid",
            OrderStatus::Manufacturing => "manufacturing",
            OrderStatus::Shipped => "shipped",
            OrderStatus::Delivered => "delivered",
            OrderStatus::Canceled => "canceled",
            OrderStatus::Refunded => "refunded",
        }
    }

    /// Whether an order in this status may move to `next`.
    pub fn allows(self, next: OrderStatus) -> (r: bool)
        ensures
            r == allowed_next(self, next),
    {
        match self {
            OrderStatus::PendingPayment => next == OrderStatus::Paid || next
                == OrderStatus::Canceled,
            OrderStatus::Paid => next == OrderStatus::Manufacturing || next
                == OrderStatus::Refunded,
            OrderStatus::Manufacturing => next == OrderStatus::Shipped || next
                == OrderStatus::Refunded,
            OrderStatus::Shipped => next == OrderStatus::Delivered || next == OrderStatus::Refunded,
            _ => false,
        }
    }
}

/// Reads a stored status text.
pub fn parse_status(text: &str) -> (r: Option<OrderStatus>)
    ensures
        r == status_of(text@),
{
    if same_text(text, "pending_payment") {
        Some(OrderStatus::PendingPayment)
    } else if same_text(text, "paid") {
        Some(OrderStatus::Paid)
    } else if same_text(text, "manufacturing") {
        Some(OrderStatus::Manufacturing)
    } else if same_text(text, "shipped") {
        Some(OrderStatus::Shipped)
    } else if same_text(text, "delivered") {
        Some(OrderStatus::Delivered)
    } else if same_text(text, "canceled") {
        Some(OrderStatus::Canceled)
    } else if same_text(text, "refunded") {
        Some(OrderStatus::Refunded)
    } else {
        None
    }
}

/// Whether an order whose status is `current` may move to `next`.
pub fn can_transition(current: &str, next: &str) -> (r: bool)
    ensures
        r == may_transition(current@, next@),
{
    match (parse_status(current), parse_status(next)) {
        (Some(c), Some(n)) => c.allows(n),
        _ => false,
    }
}

/// The statuses that may follow `current`, in the order in which they are offered.
pub fn status_transitions(current: &str) -> (r: Vec<&'static str>)
    ensures
        r@.len() == next_statuses(current@).len(),
        forall|i: int|
            0 <= i < r@.len() ==> (#[trigger] r@[i])@ == status_text(next_statuses(current@)[i]),
{
    let mut out: Vec<&'static str> = Vec::new();
    match parse_status(current) {
        Some(OrderStatus::PendingPayment) => {
            out.push(OrderStatus::Paid.as_str());
            out.push(OrderStatus::Canceled.as_str());
        },
        Some(OrderStatus::Paid) => {
            out.push(OrderStatus::Manufacturing.as_str());
            out.push(OrderStatus::Refunded.as_str());
        },
        Some(OrderStatus::Manufacturing) => {
            out.push(OrderStatus::Shipped.as_str());
            out.push(OrderStatus::Refunded.as_str());
        },
        Some(OrderStatus::Shipped) => {
            out.push(OrderStatus::Delivered.as_str());
            out.push(OrderStatus::Refunded.as_str());
        },
        _ => {},
    }
    out
}

/// The label shown for an order status; a text outside the closed set is its own label.
pub open spec fn order_status_label_text(status: Seq<char>) -> Seq<char> {
    match status_of(status) {
        Some(OrderStatus::PendingPayment) => "支払い待ち"@,
        Some(OrderStatus::Paid) => "支払い済み"@,
        Some(OrderStatus::Manufacturing) => "製造中"@,
        Some(OrderStatus::Shipped) => "出荷済み"@,
        Some(OrderStatus::Delivered) => "配達完了"@,
        Some(OrderStatus::Canceled) => "キャンセル"@,
        Some(OrderStatus::Refunded) => "返金済み"@,
        None => status,
    }
}

/// The label shown for an order status.
pub fn order_status_label<'a>(status: &'a str) -> (r: &'a str)
    ensures
        r@ == order_status_label_text(status@),
{
    match parse_status(status) {
        Some(OrderStatus::PendingPayment) => "支払い待ち",
        Some(OrderStatus::Paid) => "支払い済み",
        Some(OrderStatus::Manufacturing) => "製造中",
        Some(OrderStatus::Shipped) => "出荷済み",
        Some(OrderStatus::Delivered) => "配達完了",
        Some(OrderStatus::Canceled) => "キャンセル",
        Some(OrderStatus::Refunded) => "返金済み",
        None => status,
    }
}

/// The label shown for a payment status; an unknown text is its own label.
pub open spec fn payment_status_label_text(status: Seq<char>) -> Seq<char> {
    if status == "unpaid"@ {
        "未払い"@
    } else if status == "processing"@ {
        "処理中"@
    } else if status == "paid"@ {
        "支払い済み"@
    } else if status == "failed"@ {
        "失敗"@
    } else if status == "refunded"@ {
        "返金済み"@
    } else {
        status
    }
}

/// The label shown for a payment status.
pub fn payment_status_label<'a>(status: &'a str) -> (r: &'a str)
    ensures
        r@ == payment_status_label_text(status@),
{
    if same_text(status, "unpaid") {
        "未払い"
    } else if same_text(status, "processing") {
        "処理中"
    } else if same_text(status, "paid") {
        "支払い済み"
    } else if same_text(status, "failed") {
        "失敗"
    } else if same_text(status, "refunded") {
        "返金済み"
    } else {
        status
    }
}

/// The label shown for a fulfillment status; an unknown text is its own label.
pub open spec fn fulfillment_status_label_text(status: Seq<char>) -> Seq<char> {
    if status == "pending"@ {
        "未着手"@
    } else if status == "manufacturing"@ {
        "製造中"@
    } else if status == "shipped"@ {
        "出荷済み"@
    } else if status == "delivered"@ {
        "配達完了"@
    } else {
        status
    }
}

/// The label shown for a fulfillment status.
pub fn fulfillment_status_label<'a>(status: &'a str) -> (r: &'a str)
    ensures
        r@ == fulfillment_status_label_text(status@),
{
    if same_text(status, "pending") {
        "未着手"
    } else if same_text(status, "manufacturing") {
        "製造中"
    } else if same_text(status, "shipped") {
        "出荷済み"
    } else if same_text(status, "delivered") {
        "配達完了"
    } else {
        status
    }
}

} // verus!
