use vstd::prelude::*;
use vstd::string::StringExecFns;
use vstd::utf8::encode_utf8;
use crate::config::{contains, PublicConfig, PublicConfigView};
use crate::crypto::{hex_encode, hex_encoded, random_uuid_bytes, sha256, sha256_digest};
use crate::number::{char_of_digit, digit_char};
use crate::order::{derive_statuses, OrderEvent, OrderEventView, Timestamp};
use crate::request::{
    normalize_create_order_input, normalized_request, CreateOrderInput, CreateOrderView,
};
use crate::status::{
    derived_fulfillment, derived_payment, lemma_status_text_round_trip, status_text,
    OrderStatus,
};
use crate::text::same_text;

verus! {

/// The JSON string literal that serde_json writes for a text.
pub uninterp spec fn json_string(text: Seq<char>) -> Seq<char>;

/// `serde_json::to_string` on a `str`. Trusted: the result is the JSON string
/// literal for `text`, quotes included, and depends on `text` alone.
#[verifier::external_body]
pub(crate) fn json_quoted(text: &str) -> (r: String)
    ensures
        r@ == json_string(text@),
{
    serde_json::to_string(text).unwrap_or_default()
}

/// `acc`, then `label`, then `value` as a JSON string literal.
pub open spec fn with_member(acc: Seq<char>, label: Seq<char>, value: Seq<char>) -> Seq<char> {
    acc + label + json_string(value)
}

/// The canonical JSON text of a request: one object, no white space, the
/// members of every object in the order of their names.
pub open spec fn canonical_json(r: CreateOrderView) -> Seq<char> {
    let a = with_member(Seq::<char>::empty(), "{\"channel\":"@, r.channel);
    let a = with_member(a, ",\"contact\":{\"email\":"@, r.contact.email);
    let a = with_member(a, ",\"preferred_locale\":"@, r.contact.preferred_locale);
    let a = with_member(a, "},\"idempotency_key\":"@, r.idempotency_key);
    let a = with_member(a, ",\"locale\":"@, r.locale);
    let a = with_member(a, ",\"material_key\":"@, r.material_key);
    let a = with_member(a, ",\"seal\":{\"font_key\":"@, r.seal.font_key);
    let a = with_member(a, ",\"line1\":"@, r.seal.line1);
    let a = with_member(a, ",\"line2\":"@, r.seal.line2);
    let a = with_member(a, ",\"shape\":"@, r.seal.shape);
    let a = with_member(a, "},\"shipping\":{\"address_line1\":"@, r.shipping.address_line1);
    let a = with_member(a, ",\"address_line2\":"@, r.shipping.address_line2);
    let a = with_member(a, ",\"city\":"@, r.shipping.city);
    let a = with_member(a, ",\"country_code\":"@, r.shipping.country_code);
    let a = with_member(a, ",\"phone\":"@, r.shipping.phone);
    let a = with_member(a, ",\"postal_code\":"@, r.shipping.postal_code);
    let a = with_member(a, ",\"recipient_name\":"@, r.shipping.recipient_name);
    let a = with_member(a, ",\"state\":"@, r.shipping.state);
    a + if r.terms_agreed {
        "},\"terms_agreed\":true}"@
    } else {
        "},\"terms_agreed\":false}"@
    }
}

/// The hash that stands for a request: the SHA-256 digest of its canonical
/// JSON text, in lower-case hexadecimal.
pub open spec fn request_hash(r: CreateOrderView) -> Seq<char> {
    hex_encoded(sha256(encode_utf8(canonical_json(r))))
}

fn append_member(out: &mut String, label: &str, value: &str)
    ensures
        final(out)@ == with_member(old(out)@, label@, value@),
{
    out.append(label);
    let quoted: String = json_quoted(value);
    out.append(quoted.as_str());
}

/// The hash of a request. Two requests with the same members have the same hash.
pub fn hash_order_request(input: &CreateOrderInput) -> (r: String)
    ensures
        r@ == request_hash(input@),
{
    let mut a: String = String::new();
    append_member(&mut a, "{\"channel\":", input.channel.as_str());
    append_member(&mut a, ",\"contact\":{\"email\":", input.contact.email.as_str());
    append_member(&mut a, ",\"preferred_locale\":", input.contact.preferred_locale.as_str());
    append_member(&mut a, "},\"idempotency_key\":", input.idempotency_key.as_str());
    append_member(&mut a, ",\"locale\":", input.locale.as_str());
    append_member(&mut a, ",\"material_key\":", input.material_key.as_str());
    append_member(&mut a, ",\"seal\":{\"font_key\":", input.seal.font_key.as_str());
    append_member(&mut a, ",\"line1\":", input.seal.line1.as_str());
    append_member(&mut a, ",\"line2\":", input.seal.line2.as_str());
    append_member(&mut a, ",\"shape\":", input.seal.shape.as_str());
    append_member(
        &mut a,
        "},\"shipping\":{\"address_line1\":",
        input.shipping.address_line1.as_str(),
    );
    append_member(&mut a, ",\"address_line2\":", input.shipping.address_line2.as_str());
    append_member(&mut a, ",\"city\":", input.shipping.city.as_str());
    append_member(&mut a, ",\"country_code\":", input.shipping.country_code.as_str());
    append_member(&mut a, ",\"phone\":", input.shipping.phone.as_str());
    append_member(&mut a, ",\"postal_code\":", input.shipping.postal_code.as_str());
    append_member(&mut a, ",\"recipient_name\":", input.shipping.recipient_name.as_str());
    append_member(&mut a, ",\"state\":", input.shipping.state.as_str());
    if input.terms_agreed {
        a.append("},\"terms_agreed\":true}");
    } else {
        a.append("},\"terms_agreed\":false}");
    }
    let digest: Vec<u8> = sha256_digest(a.as_str().as_bytes());
    hex_encode(digest.as_slice())
}

/// The key under which the record of a request is kept: channel, a colon,
/// the idempotency key.
pub fn idempotency_id(channel: &str, idempotency_key: &str) -> (r: String)
    ensures
        r@ == channel@ + ":"@ + idempotency_key@,
{
    let mut id: String = channel.to_owned();
    id.append(":");
    id.append(idempotency_key);
    id
}

/// Why an order was not created.
#[derive(Clone, Copy, Debug, PartialEq, Eq, Structural)]
pub enum StoreError {
    UnsupportedLocale,
    InvalidReference,
    InactiveReference,
    IdempotencyConflict,
    Internal,
}

/// What is kept of a request under its idempotency id.
#[derive(Debug)]
pub struct IdempotencyRecord {
    pub request_hash: String,
    pub order_id: String,
}

/// What such a record holds.
pub struct IdempotencyRecordView {
    pub request_hash: Seq<char>,
    pub order_id: Seq<char>,
}

impl View for IdempotencyRecord {
    type V = IdempotencyRecordView;

    open spec fn view(&self) -> IdempotencyRecordView {
        IdempotencyRecordView { request_hash: self.request_hash@, order_id: self.order_id@ }
    }
}

/// What an optional record holds.
pub open spec fn record_view(record: Option<&IdempotencyRecord>) -> Option<IdempotencyRecordView> {
    match record {
        Some(r) => Some(r@),
        None => None,
    }
}

/// What a submission meets under its idempotency id.
///
/// No record: the request is new, `Ok(None)`. A record with another hash:
/// the key was used for another request, a conflict. A record with the same
/// hash: the order that it names is to be replayed; a record that names no
/// order is broken.
pub open spec fn replay_lookup(record: Option<IdempotencyRecordView>, hash: Seq<char>) -> Result<
    Option<Seq<char>>,
    StoreError,
> {
    match record {
        None => Ok(None),
        Some(r) => if r.request_hash != hash {
            Err(StoreError::IdempotencyConflict)
        } else if r.order_id.len() == 0 {
            Err(StoreError::Internal)
        } else {
            Ok(Some(r.order_id))
        },
    }
}

/// Looks a request up under its idempotency id: `Ok(Some(order_id))` where
/// the order `order_id` is to be replayed, `Ok(None)` where the request is new.
pub fn try_idempotent_replay(record: Option<&IdempotencyRecord>, request_hash: &str) -> (r: Result<
    Option<String>,
    StoreError,
>)
    ensures
        match r {
            Ok(Some(order_id)) => replay_lookup(record_view(record), request_hash@) == Ok::<
                Option<Seq<char>>,
                StoreError,
            >(Some(order_id@)),
            Ok(None) => replay_lookup(record_view(record), request_hash@) == Ok::<
                Option<Seq<char>>,
                StoreError,
            >(None),
            Err(e) => replay_lookup(record_view(record), request_hash@) == Err::<
                Option<Seq<char>>,
                StoreError,
            >(e),
        },
{
    match record {
        None => Ok(None),
        Some(existing) => {
            if !same_text(existing.request_hash.as_str(), request_hash) {
                return Err(StoreError::IdempotencyConflict);
            }
            if existing.order_id.as_str().is_empty() {
                return Err(StoreError::Internal);
            }
            Ok(Some(existing.order_id.clone()))
        },
    }
}

/// What a submission that lost the race for its idempotency id gets: the
/// winner's order where the winner sent the same request, else a conflict.
pub open spec fn lost_race_outcome(record: Option<IdempotencyRecordView>, hash: Seq<char>) -> Result<
    Seq<char>,
    StoreError,
> {
    match replay_lookup(record, hash) {
        Ok(Some(order_id)) => Ok(order_id),
        Ok(None) => Err(StoreError::IdempotencyConflict),
        Err(e) => Err(e),
    }
}

/// Settles a submission whose record could not be created because another
/// one exists by now. `record` is the record as read after the refusal.
pub fn resolve_record_conflict(record: Option<&IdempotencyRecord>, request_hash: &str) -> (r:
    Result<String, StoreError>)
    ensures
        match r {
            Ok(order_id) => lost_race_outcome(record_view(record), request_hash@) == Ok::<
                Seq<char>,
                StoreError,
            >(order_id@),
            Err(e) => lost_race_outcome(record_view(record), request_hash@) == Err::<
                Seq<char>,
                StoreError,
            >(e),
        },
{
    match try_idempotent_replay(record, request_hash) {
        Ok(Some(order_id)) => Ok(order_id),
        Ok(None) => Err(StoreError::IdempotencyConflict),
        Err(e) => Err(e),
    }
}

/// The record that a created order leaves under its idempotency id.
pub fn new_idempotency_record(request_hash: &str, order_id: &str) -> (r: IdempotencyRecord)
    ensures
        r@ == (IdempotencyRecordView { request_hash: request_hash@, order_id: order_id@ }),
{
    IdempotencyRecord { request_hash: request_hash.to_owned(), order_id: order_id.to_owned() }
}

/// A request that is submitted again under its idempotency id is answered
/// with the order that its first submission created, however often it comes:
/// the first submission finds no record, every later one finds the record of
/// the first and its order.
pub proof fn lemma_same_request_is_replayed(request: CreateOrderView, order_id: Seq<char>)
    requires
        order_id.len() > 0,
    ensures
        replay_lookup(None, request_hash(request)) == Ok::<Option<Seq<char>>, StoreError>(None),
        replay_lookup(
            Some(IdempotencyRecordView { request_hash: request_hash(request), order_id }),
            request_hash(request),
        ) == Ok::<Option<Seq<char>>, StoreError>(Some(order_id)),
        lost_race_outcome(
            Some(IdempotencyRecordView { request_hash: request_hash(request), order_id }),
            request_hash(request),
        ) == Ok::<Seq<char>, StoreError>(order_id),
{
}

/// A request whose hash differs from that of the request that used the
/// idempotency id first is refused as a conflict, before and after the race
/// for the record: no second order is handed out under the id.
pub proof fn lemma_other_request_conflicts(
    first: CreateOrderView,
    second: CreateOrderView,
    order_id: Seq<char>,
)
    requires
        request_hash(first) != request_hash(second),
    ensures
        replay_lookup(
            Some(IdempotencyRecordView { request_hash: request_hash(first), order_id }),
            request_hash(second),
        ) == Err::<Option<Seq<char>>, StoreError>(StoreError::IdempotencyConflict),
        lost_race_outcome(
            Some(IdempotencyRecordView { request_hash: request_hash(first), order_id }),
            request_hash(second),
        ) == Err::<Seq<char>, StoreError>(StoreError::IdempotencyConflict),
{
}

/// Whether the store's configuration serves both locales of a request.
pub open spec fn locales_supported(cfg: PublicConfigView, request: CreateOrderView) -> bool {
    cfg.supported_locales.contains(request.locale) && cfg.supported_locales.contains(
        request.contact.preferred_locale,
    )
}

/// Refuses a request whose locale, or whose contact's locale, is not served.
pub fn check_locales(cfg: &PublicConfig, input: &CreateOrderInput) -> (r: Result<(), StoreError>)
    ensures
        r is Ok <==> locales_supported(cfg@, input@),
        r matches Err(e) ==> e == StoreError::UnsupportedLocale,
{
    if !contains(&cfg.supported_locales, input.locale.as_str()) || !contains(
        &cfg.supported_locales,
        input.contact.preferred_locale.as_str(),
    ) {
        return Err(StoreError::UnsupportedLocale);
    }
    Ok(())
}

/// The verdict on a font, a material or a country that a request names:
/// it must be in the catalog, and its entry must say that it is active.
pub open spec fn reference_verdict(found: bool, is_active: Option<bool>) -> Result<(), StoreError> {
    if !found {
        Err(StoreError::InvalidReference)
    } else if is_active != Some(true) {
        Err(StoreError::InactiveReference)
    } else {
        Ok(())
    }
}

/// Judges a font, a material or a country that a request names: `exists`
/// says whether the catalog holds it, `is_active` what its entry says of it.
/// An entry that says nothing counts as inactive.
pub fn check_reference(exists: bool, is_active: Option<bool>) -> (r: Result<(), StoreError>)
    ensures
        r == reference_verdict(exists, is_active),
{
    if !exists {
        return Err(StoreError::InvalidReference);
    }
    match is_active {
        Some(true) => Ok(()),
        _ => Err(StoreError::InactiveReference),
    }
}

/// The amounts of an order, in yen.
#[derive(Clone, Copy, Debug, PartialEq, Eq, Structural)]
pub struct Pricing {
    pub subtotal_jpy: i64,
    pub shipping_jpy: i64,
    pub tax_jpy: i64,
    pub discount_jpy: i64,
    pub total_jpy: i64,
}

/// The total of an order: material and shipping, never below zero.
pub open spec fn order_total(material_price: int, shipping_fee: int) -> int {
    if material_price + shipping_fee < 0 {
        0
    } else {
        material_price + shipping_fee
    }
}

/// Prices an order: the material's price, the country's shipping fee, no tax
/// and no discount. Refused as an internal error where the total is beyond `i64`.
pub fn price_order(material_price: i64, shipping_fee: i64) -> (r: Result<Pricing, StoreError>)
    ensures
        r is Ok <==> order_total(material_price as int, shipping_fee as int) <= i64::MAX,
        r matches Err(e) ==> e == StoreError::Internal,
        r matches Ok(p) ==> p == (Pricing {
            subtotal_jpy: material_price,
            shipping_jpy: shipping_fee,
            tax_jpy: 0,
            discount_jpy: 0,
            total_jpy: order_total(material_price as int, shipping_fee as int) as i64,
        }),
{
    let sum: i128 = material_price as i128 + shipping_fee as i128;
    let total: i128 = if sum < 0 {
        0
    } else {
        sum
    };
    if total > i64::MAX as i128 {
        return Err(StoreError::Internal);
    }
    Ok(
        Pricing {
            subtotal_jpy: material_price,
            shipping_jpy: shipping_fee,
            tax_jpy: 0,
            discount_jpy: 0,
            total_jpy: total as i64,
        },
    )
}

/// An order number: `HF-`, the date of creation, a hyphen, and the last four
/// decimal digits of `seed`.
pub open spec fn order_number_text(date: Seq<char>, seed: u16) -> Seq<char> {
    let n = (seed % 10000) as nat;
    "HF-"@ + date + "-"@ + seq![
        digit_char(n / 1000),
        digit_char(n / 100 % 10),
        digit_char(n / 10 % 10),
        digit_char(n % 10),
    ]
}

/// Makes an order number from the date of creation, written `YYYYMMDD`, and
/// a number drawn at random.
pub fn order_number(date: &str, seed: u16) -> (r: String)
    ensures
        r@ == order_number_text(date@, seed),
{
    let n: u64 = (seed % 10000) as u64;
    let mut out: String = "HF-".to_owned();
    out.append(date);
    out.append("-");
    out.push(char_of_digit(n / 1000));
    out.push(char_of_digit(n / 100 % 10));
    out.push(char_of_digit(n / 10 % 10));
    out.push(char_of_digit(n % 10));
    assert(out@ =~= order_number_text(date@, seed));
    out
}

/// Makes an order number for an order created on `date`, written `YYYYMMDD`.
/// The four digits at its end are drawn at random; two orders of one day may
/// get the same number, and nothing depends on their being different.
pub fn new_order_number(date: &str) -> (r: String)
    ensures
        (exists|seed: u16| r@ == order_number_text(date@, seed)),
{
    let random: Vec<u8> = random_uuid_bytes();
    let seed: u16 = (random[0] as u16) * 256 + random[1] as u16;
    order_number(date, seed)
}

/// What the caller is told about a submission.
#[derive(Debug)]
pub struct CreateOrderResult {
    pub order_id: String,
    pub order_no: String,
    pub status: String,
    pub payment_status: String,
    pub fulfillment_status: String,
    pub total_jpy: i64,
    pub currency: String,
    pub idempotent_replay: bool,
}

/// What such an answer holds.
pub struct CreateOrderResultView {
    pub order_id: Seq<char>,
    pub order_no: Seq<char>,
    pub status: Seq<char>,
    pub payment_status: Seq<char>,
    pub fulfillment_status: Seq<char>,
    pub total_jpy: i64,
    pub currency: Seq<char>,
    pub idempotent_replay: bool,
}

impl View for CreateOrderResult {
    type V = CreateOrderResultView;

    open spec fn view(&self) -> CreateOrderResultView {
        CreateOrderResultView {
            order_id: self.order_id@,
            order_no: self.order_no@,
            status: self.status@,
            payment_status: self.payment_status@,
            fulfillment_status: self.fulfillment_status@,
            total_jpy: self.total_jpy,
            currency: self.currency@,
            idempotent_replay: self.idempotent_replay,
        }
    }
}

/// What the submission that created an order is told: the order awaits
/// payment, is unpaid, and its fulfillment is pending.
pub open spec fn created_result(
    order_id: Seq<char>,
    order_no: Seq<char>,
    total_jpy: i64,
) -> CreateOrderResultView {
    CreateOrderResultView {
        order_id,
        order_no,
        status: "pending_payment"@,
        payment_status: "unpaid"@,
        fulfillment_status: "pending"@,
        total_jpy,
        currency: "JPY"@,
        idempotent_replay: false,
    }
}

/// The statuses of a new order are those that follow from its status.
pub proof fn lemma_new_order_statuses_are_derived()
    ensures
        "pending_payment"@ == status_text(OrderStatus::PendingPayment),
        "unpaid"@ == derived_payment("pending_payment"@),
        "pending"@ == derived_fulfillment("pending_payment"@, Seq::<char>::empty()),
{
    lemma_status_text_round_trip(OrderStatus::PendingPayment);
}

/// The answer to the submission that created an order: the order awaits
/// payment, and its payment and fulfillment statuses are those that follow.
pub fn created_order_result(order_id: &str, order_no: &str, pricing: Pricing) -> (r:
    CreateOrderResult)
    ensures
        r@ == created_result(order_id@, order_no@, pricing.total_jpy),
{
    let fresh = derive_statuses(OrderStatus::PendingPayment.as_str(), "");
    proof {
        reveal_strlit("");
        lemma_new_order_statuses_are_derived();
    }
    CreateOrderResult {
        order_id: order_id.to_owned(),
        order_no: order_no.to_owned(),
        status: OrderStatus::PendingPayment.as_str().to_owned(),
        payment_status: fresh.0,
        fulfillment_status: fresh.1,
        total_jpy: pricing.total_jpy,
        currency: "JPY".to_owned(),
        idempotent_replay: false,
    }
}

/// The audit entry that opens the log of a created order.
pub fn order_created_event(now: Timestamp) -> (r: OrderEvent)
    ensures
        r@ == (OrderEventView {
            kind: "order_created"@,
            actor_type: "system"@,
            actor_id: Seq::<char>::empty(),
            before_status: Seq::<char>::empty(),
            after_status: Seq::<char>::empty(),
            note: Seq::<char>::empty(),
            created_at: now,
        }),
{
    OrderEvent {
        kind: "order_created".to_owned(),
        actor_type: "system".to_owned(),
        actor_id: String::new(),
        before_status: String::new(),
        after_status: String::new(),
        note: String::new(),
        created_at: now,
    }
}

/// What is read of a stored order to answer a repeated submission.
#[derive(Debug)]
pub struct StoredOrder {
    pub order_no: String,
    pub status: String,
    pub payment_status: String,
    pub fulfillment_status: String,
    pub total_jpy: Option<i64>,
    pub currency: String,
}

/// What a stored order holds.
pub struct StoredOrderView {
    pub order_no: Seq<char>,
    pub status: Seq<char>,
    pub payment_status: Seq<char>,
    pub fulfillment_status: Seq<char>,
    pub total_jpy: Option<i64>,
    pub currency: Seq<char>,
}

impl View for StoredOrder {
    type V = StoredOrderView;

    open spec fn view(&self) -> StoredOrderView {
        StoredOrderView {
            order_no: self.order_no@,
            status: self.status@,
            payment_status: self.payment_status@,
            fulfillment_status: self.fulfillment_status@,
            total_jpy: self.total_jpy,
            currency: self.currency@,
        }
    }
}

/// What a repeated submission is told: the order as it is stored now.
pub open spec fn replayed_result(
    order_id: Seq<char>,
    stored: StoredOrderView,
) -> CreateOrderResultView {
    CreateOrderResultView {
        order_id,
        order_no: stored.order_no,
        status: stored.status,
        payment_status: stored.payment_status,
        fulfillment_status: stored.fulfillment_status,
        total_jpy: match stored.total_jpy {
            Some(total) => total,
            None => 0,
        },
        currency: stored.currency,
        idempotent_replay: true,
    }
}

/// The answer to a repeated submission: the order as it is now. A stored
/// order without a total counts as one of zero yen.
pub fn replayed_order_result(order_id: &str, stored: &StoredOrder) -> (r: CreateOrderResult)
    ensures
        r@ == replayed_result(order_id@, stored@),
{
    CreateOrderResult {
        order_id: order_id.to_owned(),
        order_no: stored.order_no.clone(),
        status: stored.status.clone(),
        payment_status: stored.payment_status.clone(),
        fulfillment_status: stored.fulfillment_status.clone(),
        total_jpy: match stored.total_jpy {
            Some(total) => total,
            None => 0,
        },
        currency: stored.currency.clone(),
        idempotent_replay: true,
    }
}

/// What the catalog says of a font, a material or a country: whether it
/// holds it, what the entry says of its being active, and the amount that
/// the entry carries (a material's price, a country's shipping fee).
#[derive(Clone, Copy, Debug, PartialEq, Eq, Structural)]
pub struct CatalogEntry {
    pub exists: bool,
    pub is_active: Option<bool>,
    pub amount_jpy: i64,
}

/// What is to be done for a submission.
#[derive(Debug)]
pub enum CreationPlan {
    /// Answer with the order `order_id`, created by an earlier submission.
    Replay { order_id: String },
    /// Create an order with these amounts, then its record under
    /// `idempotency_id` with `request_hash`.
    Create { idempotency_id: String, request_hash: String, pricing: Pricing },
}

/// What a plan holds.
pub enum CreationPlanView {
    Replay { order_id: Seq<char> },
    Create { idempotency_id: Seq<char>, request_hash: Seq<char>, pricing: Pricing },
}

impl View for CreationPlan {
    type V = CreationPlanView;

    open spec fn view(&self) -> CreationPlanView {
        match self {
            CreationPlan::Replay { order_id } => CreationPlanView::Replay { order_id: order_id@ },
            CreationPlan::Create { idempotency_id, request_hash, pricing } => {
                CreationPlanView::Create {
                    idempotency_id: idempotency_id@,
                    request_hash: request_hash@,
                    pricing: *pricing,
                }
            },
        }
    }
}

/// The first of font, material and country that the catalog refuses, or the
/// price of the order where it refuses none.
pub open spec fn priced_references(
    font: CatalogEntry,
    material: CatalogEntry,
    country: CatalogEntry,
) -> Result<Pricing, StoreError> {
    if reference_verdict(font.exists, font.is_active) is Err {
        Err(reference_verdict(font.exists, font.is_active)->Err_0)
    } else if reference_verdict(material.exists, material.is_active) is Err {
        Err(reference_verdict(material.exists, material.is_active)->Err_0)
    } else if reference_verdict(country.exists, country.is_active) is Err {
        Err(reference_verdict(country.exists, country.is_active)->Err_0)
    } else if order_total(material.amount_jpy as int, country.amount_jpy as int) > i64::MAX {
        Err(StoreError::Internal)
    } else {
        Ok(
            Pricing {
                subtotal_jpy: material.amount_jpy,
                shipping_jpy: country.amount_jpy,
                tax_jpy: 0,
                discount_jpy: 0,
                total_jpy: order_total(material.amount_jpy as int, country.amount_jpy as int) as i64,
            },
        )
    }
}

/// What is to be done for the request `request`, already in its normal form,
/// given the record kept under its idempotency id, if any. The locales are
/// checked first; a record decides next, before the catalog is looked at.
pub open spec fn creation_plan(
    request: CreateOrderView,
    cfg: PublicConfigView,
    record: Option<IdempotencyRecordView>,
    font: CatalogEntry,
    material: CatalogEntry,
    country: CatalogEntry,
) -> Result<CreationPlanView, StoreError> {
    if !locales_supported(cfg, request) {
        Err(StoreError::UnsupportedLocale)
    } else {
        match replay_lookup(record, request_hash(request)) {
            Err(e) => Err(e),
            Ok(Some(order_id)) => Ok(CreationPlanView::Replay { order_id }),
            Ok(None) => match priced_references(font, material, country) {
                Err(e) => Err(e),
                Ok(pricing) => Ok(
                    CreationPlanView::Create {
                        idempotency_id: request.channel + ":"@ + request.idempotency_key,
                        request_hash: request_hash(request),
                        pricing,
                    },
                ),
            },
        }
    }
}

/// Decides what is to be done for a submission. `input` is brought into its
/// normal form first. `record` is the record kept under
/// `idempotency_id(channel, idempotency_key)` of that normal form, if any;
/// the three entries are what the catalog says of the font, the material and
/// the country that the normal form names.
pub fn plan_order_creation(
    input: CreateOrderInput,
    cfg: &PublicConfig,
    record: Option<&IdempotencyRecord>,
    font: CatalogEntry,
    material: CatalogEntry,
    country: CatalogEntry,
) -> (r: Result<CreationPlan, StoreError>)
    ensures
        match r {
            Ok(plan) => creation_plan(
                normalized_request(input@),
                cfg@,
                record_view(record),
                font,
                material,
                country,
            ) == Ok::<CreationPlanView, StoreError>(plan@),
            Err(e) => creation_plan(
                normalized_request(input@),
                cfg@,
                record_view(record),
                font,
                material,
                country,
            ) == Err::<CreationPlanView, StoreError>(e),
        },
{
    let normalized = normalize_create_order_input(input);
    let request_hash: String = hash_order_request(&normalized);
    match check_locales(cfg, &normalized) {
        Err(e) => {
            return Err(e);
        },
        Ok(()) => {},
    }
    match try_idempotent_replay(record, request_hash.as_str()) {
        Err(e) => {
            return Err(e);
        },
        Ok(Some(order_id)) => {
            return Ok(CreationPlan::Replay { order_id });
        },
        Ok(None) => {},
    }
    match check_reference(font.exists, font.is_active) {
        Err(e) => {
            return Err(e);
        },
        Ok(()) => {},
    }
    match check_reference(material.exists, material.is_active) {
        Err(e) => {
            return Err(e);
        },
        Ok(()) => {},
    }
    match check_reference(country.exists, country.is_active) {
        Err(e) => {
            return Err(e);
        },
        Ok(()) => {},
    }
    let pricing = match price_order(material.amount_jpy, country.amount_jpy) {
        Err(e) => {
            return Err(e);
        },
        Ok(pricing) => pricing,
    };
    Ok(
        CreationPlan::Create {
            idempotency_id: idempotency_id(
                normalized.channel.as_str(),
                normalized.idempotency_key.as_str(),
            ),
            request_hash,
            pricing,
        },
    )
}

/// Submitting a request twice creates one order: the first submission, which
/// finds no record and a catalog that accepts it, is told to create; once
/// its order and record exist, the same request is told to replay that order,
/// whatever the catalog says by then.
pub proof fn lemma_second_submission_replays(
    request: CreateOrderView,
    cfg: PublicConfigView,
    font: CatalogEntry,
    material: CatalogEntry,
    country: CatalogEntry,
    order_id: Seq<char>,
    later_font: CatalogEntry,
    later_material: CatalogEntry,
    later_country: CatalogEntry,
)
    requires
        order_id.len() > 0,
        creation_plan(request, cfg, None, font, material, country) is Ok,
    ensures
        creation_plan(request, cfg, None, font, material, country)->Ok_0 is Create,
        creation_plan(request, cfg, None, font, material, country)->Ok_0->request_hash
            == request_hash(request),
        creation_plan(
            request,
            cfg,
            Some(IdempotencyRecordView { request_hash: request_hash(request), order_id }),
            later_font,
            later_material,
            later_country,
        ) == Ok::<CreationPlanView, StoreError>(CreationPlanView::Replay { order_id }),
{
}

/// A request that differs in its hash from the one that used the idempotency
/// id first is always refused, and told to create nothing; where its locales
/// are served, the refusal is a conflict.
pub proof fn lemma_other_submission_conflicts(
    first: CreateOrderView,
    second: CreateOrderView,
    cfg: PublicConfigView,
    font: CatalogEntry,
    material: CatalogEntry,
    country: CatalogEntry,
    order_id: Seq<char>,
)
    requires
        request_hash(first) != request_hash(second),
    ensures
        creation_plan(
            second,
            cfg,
            Some(IdempotencyRecordView { request_hash: request_hash(first), order_id }),
            font,
            material,
            country,
        ) is Err,
        locales_supported(cfg, second) ==> creation_plan(
            second,
            cfg,
            Some(IdempotencyRecordView { request_hash: request_hash(first), order_id }),
            font,
            material,
            country,
        ) == Err::<CreationPlanView, StoreError>(StoreError::IdempotencyConflict),
{
}

/// The HTTP status that answers a submission: 201 for an order that was
/// created, 200 for one that is replayed, 409 for a conflict, 400 for a
/// request that the store cannot serve, 500 for an internal error.
pub open spec fn submission_status(outcome: Result<bool, StoreError>) -> u16 {
    match outcome {
        Ok(false) => 201,
        Ok(true) => 200,
        Err(StoreError::IdempotencyConflict) => 409,
        Err(StoreError::Internal) => 500,
        Err(_) => 400,
    }
}

/// The HTTP status that answers a submission.
pub fn create_order_status(result: &Result<CreateOrderResult, StoreError>) -> (r: u16)
    ensures
        r == submission_status(
            match result {
                Ok(created) => Ok(created.idempotent_replay),
                Err(e) => Err(*e),
            },
        ),
{
    match result {
        Ok(created) => if created.idempotent_replay {
            200
        } else {
            201
        },
        Err(StoreError::IdempotencyConflict) => 409,
        Err(StoreError::Internal) => 500,
        Err(_) => 400,
    }
}

impl StoreError {
    /// The code by which a client tells the errors apart.
    pub fn code(self) -> (r: &'static str)
        ensures
            r@ == match self {
                StoreError::UnsupportedLocale => "unsupported_locale"@,
                StoreError::InvalidReference => "invalid_reference"@,
                StoreError::InactiveReference => "inactive_reference"@,
                StoreError::IdempotencyConflict => "idempotency_conflict"@,
                StoreError::Internal => "internal"@,
            },
    {
        match self {
            StoreError::UnsupportedLocale => "unsupported_locale",
            StoreError::InvalidReference => "invalid_reference",
            StoreError::InactiveReference => "inactive_reference",
            StoreError::IdempotencyConflict => "idempotency_conflict",
            StoreError::Internal => "internal",
        }
    }

    /// The message that a client is shown. An internal error shows nothing
    /// of what went wrong inside.
    pub fn message(self) -> (r: &'static str)
        ensures
            r@ == match self {
                StoreError::UnsupportedLocale => "unsupported locale"@,
                StoreError::InvalidReference => "invalid font/material/country"@,
                StoreError::InactiveReference => "inactive font/material/country"@,
                StoreError::IdempotencyConflict =>
                    "idempotency key is already used with different payload"@,
                StoreError::Internal => "internal server error"@,
            },
    {
        match self {
            StoreError::UnsupportedLocale => "unsupported locale",
            StoreError::InvalidReference => "invalid font/material/country",
            StoreError::InactiveReference => "inactive font/material/country",
            StoreError::IdempotencyConflict =>
                "idempotency key is already used with different payload",
            StoreError::Internal => "internal server error",
        }
    }
}

/// What a submission leaves behind and is told.
#[derive(Debug)]
pub struct Submission {
    /// The record kept under the idempotency id afterwards.
    pub record: IdempotencyRecord,
    /// The order that the answer names, as it is stored afterwards.
    pub order: StoredOrder,
    /// What the caller is told.
    pub result: CreateOrderResult,
    /// Whether order and record are new, and so to be written.
    pub created: bool,
}

/// What a submission holds.
pub struct SubmissionView {
    pub record: IdempotencyRecordView,
    pub order: StoredOrderView,
    pub result: CreateOrderResultView,
    pub created: bool,
}

impl View for Submission {
    type V = SubmissionView;

    open spec fn view(&self) -> SubmissionView {
        SubmissionView {
            record: self.record@,
            order: self.order@,
            result: self.result@,
            created: self.created,
        }
    }
}

/// A new order as it is stored.
pub open spec fn new_stored_order(order_no: Seq<char>, total_jpy: i64) -> StoredOrderView {
    StoredOrderView {
        order_no,
        status: "pending_payment"@,
        payment_status: "unpaid"@,
        fulfillment_status: "pending"@,
        total_jpy: Some(total_jpy),
        currency: "JPY"@,
    }
}

/// The outcome of submitting `request`, given the record kept under its
/// idempotency id, if any, and the order that this record names, if it is
/// stored. `order_id` and `order_no` are the id and the number that a new
/// order would get.
///
/// Where the plan is to create, one order and its record come to be.
/// Where it is to replay, nothing comes to be: record and order stay, and the
/// answer names the order of the record.
pub open spec fn submitted(
    record: Option<IdempotencyRecordView>,
    stored: Option<StoredOrderView>,
    request: CreateOrderView,
    cfg: PublicConfigView,
    font: CatalogEntry,
    material: CatalogEntry,
    country: CatalogEntry,
    order_id: Seq<char>,
    order_no: Seq<char>,
) -> Result<SubmissionView, StoreError> {
    match creation_plan(normalized_request(request), cfg, record, font, material, country) {
        Err(e) => Err(e),
        Ok(CreationPlanView::Replay { order_id: existing }) => match stored {
            None => Err(StoreError::Internal),
            Some(order) => Ok(
                SubmissionView {
                    record: record.unwrap(),
                    order,
                    result: replayed_result(existing, order),
                    created: false,
                },
            ),
        },
        Ok(CreationPlanView::Create { idempotency_id, request_hash, pricing }) => Ok(
            SubmissionView {
                record: IdempotencyRecordView { request_hash, order_id },
                order: new_stored_order(order_no, pricing.total_jpy),
                result: created_result(order_id, order_no, pricing.total_jpy),
                created: true,
            },
        ),
    }
}

/// What an optional stored order holds.
pub open spec fn stored_view(stored: Option<StoredOrder>) -> Option<StoredOrderView> {
    match stored {
        Some(order) => Some(order@),
        None => None,
    }
}

/// What an optional record holds.
pub open spec fn owned_record_view(record: Option<IdempotencyRecord>) -> Option<
    IdempotencyRecordView,
> {
    match record {
        Some(r) => Some(r@),
        None => None,
    }
}

/// Handles one submission from the record and the order that the store
/// holds for it to what is to be stored and answered. `record` is the record
/// kept under the request's idempotency id, if any; `stored` is the order
/// that this record names, if the store has it; the three entries are what
/// the catalog says; `order_id` and `order_no` are the id and the number for
/// an order that is created.
pub fn submit_order(
    record: Option<IdempotencyRecord>,
    stored: Option<StoredOrder>,
    input: CreateOrderInput,
    cfg: &PublicConfig,
    font: CatalogEntry,
    material: CatalogEntry,
    country: CatalogEntry,
    order_id: &str,
    order_no: &str,
) -> (r: Result<Submission, StoreError>)
    ensures
        match r {
            Ok(submission) => submitted(
                owned_record_view(record),
                stored_view(stored),
                input@,
                cfg@,
                font,
                material,
                country,
                order_id@,
                order_no@,
            ) == Ok::<SubmissionView, StoreError>(submission@),
            Err(e) => submitted(
                owned_record_view(record),
                stored_view(stored),
                input@,
                cfg@,
                font,
                material,
                country,
                order_id@,
                order_no@,
            ) == Err::<SubmissionView, StoreError>(e),
        },
{
    let plan = match &record {
        Some(existing) => plan_order_creation(input, cfg, Some(existing), font, material, country),
        None => plan_order_creation(input, cfg, None, font, material, country),
    };
    match plan {
        Err(e) => Err(e),
        Ok(CreationPlan::Replay { order_id: existing }) => match (record, stored) {
            (Some(record), Some(order)) => {
                let result = replayed_order_result(existing.as_str(), &order);
                Ok(Submission { record, order, result, created: false })
            },
            _ => Err(StoreError::Internal),
        },
        Ok(CreationPlan::Create { idempotency_id, request_hash, pricing }) => {
            let result = created_order_result(order_id, order_no, pricing);
            Ok(
                Submission {
                    record: new_idempotency_record(request_hash.as_str(), order_id),
                    order: StoredOrder {
                        order_no: order_no.to_owned(),
                        status: "pending_payment".to_owned(),
                        payment_status: "unpaid".to_owned(),
                        fulfillment_status: "pending".to_owned(),
                        total_jpy: Some(pricing.total_jpy),
                        currency: "JPY".to_owned(),
                    },
                    result,
                    created: true,
                },
            )
        },
    }
}

/// A first submission is told to create: where no record is kept under the
/// idempotency id, the locales are served, the catalog holds font, material
/// and country as active, and the total is within `i64`, one order comes to
/// be, awaiting payment, and the record holds its id and the hash of the
/// request.
pub proof fn lemma_first_submission_creates(
    request: CreateOrderView,
    cfg: PublicConfigView,
    font: CatalogEntry,
    material: CatalogEntry,
    country: CatalogEntry,
    order_id: Seq<char>,
    order_no: Seq<char>,
)
    requires
        locales_supported(cfg, normalized_request(request)),
        font.exists && font.is_active == Some(true),
        material.exists && material.is_active == Some(true),
        country.exists && country.is_active == Some(true),
        order_total(material.amount_jpy as int, country.amount_jpy as int) <= i64::MAX,
    ensures
        submitted(None, None, request, cfg, font, material, country, order_id, order_no) == Ok::<
            SubmissionView,
            StoreError,
        >(
            SubmissionView {
                record: IdempotencyRecordView {
                    request_hash: request_hash(normalized_request(request)),
                    order_id,
                },
                order: new_stored_order(
                    order_no,
                    order_total(material.amount_jpy as int, country.amount_jpy as int) as i64,
                ),
                result: created_result(
                    order_id,
                    order_no,
                    order_total(material.amount_jpy as int, country.amount_jpy as int) as i64,
                ),
                created: true,
            },
        ),
{
}

/// Submitting a request again, and again, creates nothing and names the
/// same order. Where a first submission created the order `order_id`, any
/// request with the same normal form, submitted on what the first left
/// behind, is answered with that order's id and number, marked as a replay,
/// and leaves record and order as they are; so the same holds of every
/// further repetition. What the catalog says by then, and which id and
/// number a new order would get, makes no difference.
pub proof fn lemma_repeated_submission_replays(
    first: CreateOrderView,
    again: CreateOrderView,
    cfg: PublicConfigView,
    font: CatalogEntry,
    material: CatalogEntry,
    country: CatalogEntry,
    order_id: Seq<char>,
    order_no: Seq<char>,
    later_font: CatalogEntry,
    later_material: CatalogEntry,
    later_country: CatalogEntry,
    later_id: Seq<char>,
    later_no: Seq<char>,
)
    requires
        order_id.len() > 0,
        normalized_request(again) == normalized_request(first),
        submitted(None, None, first, cfg, font, material, country, order_id, order_no) is Ok,
    ensures
        ({
            let one = submitted(
                None,
                None,
                first,
                cfg,
                font,
                material,
                country,
                order_id,
                order_no,
            )->Ok_0;
            let two = submitted(
                Some(one.record),
                Some(one.order),
                again,
                cfg,
                later_font,
                later_material,
                later_country,
                later_id,
                later_no,
            );
            &&& one.created
            &&& !one.result.idempotent_replay
            &&& one.result.order_id == order_id
            &&& two is Ok
            &&& !two->Ok_0.created
            &&& two->Ok_0.result.idempotent_replay
            &&& two->Ok_0.result.order_id == one.result.order_id
            &&& two->Ok_0.result.order_no == one.result.order_no
            &&& two->Ok_0.record == one.record
            &&& two->Ok_0.order == one.order
        }),
{
}

/// A request with another hash, submitted on what a first submission left
/// behind, creates nothing: it is refused.
pub proof fn lemma_other_submission_creates_nothing(
    first: CreateOrderView,
    other: CreateOrderView,
    cfg: PublicConfigView,
    font: CatalogEntry,
    material: CatalogEntry,
    country: CatalogEntry,
    order_id: Seq<char>,
    order_no: Seq<char>,
    later_id: Seq<char>,
    later_no: Seq<char>,
)
    requires
        request_hash(normalized_request(first)) != request_hash(normalized_request(other)),
        submitted(None, None, first, cfg, font, material, country, order_id, order_no) is Ok,
    ensures
        ({
            let one = submitted(
                None,
                None,
                first,
                cfg,
                font,
                material,
                country,
                order_id,
                order_no,
            )->Ok_0;
            let two = submitted(
                Some(one.record),
                Some(one.order),
                other,
                cfg,
                font,
                material,
                country,
                later_id,
                later_no,
            );
            &&& two is Err
            &&& locales_supported(cfg, normalized_request(other)) ==> two == Err::<
                SubmissionView,
                StoreError,
            >(StoreError::IdempotencyConflict)
        }),
{
}

} // verus!
