use vstd::prelude::*;
use vstd::string::StringExecFns;
use vstd::utf8::encode_utf8;
use crate::status::{
    lemma_status_text_round_trip, may_transition, next_statuses, order_status_label,
    order_status_label_text, parse_status, status_of, status_text, OrderStatus,
};
use crate::text::{
    begins_with, chars_of, contains_whitespace, ends_with, first_index, find_char, has_space,
    has_suffix, lowercase, same_text, skip_leading, starts_with, strip_leading, to_lowercase, trim,
    trim_owned, trimmed,
};

verus! {

/// How the admin console is run.
#[derive(Clone, Copy, Debug, PartialEq, Eq, Structural)]
pub enum RunMode {
    Mock,
    Dev,
    Prod,
}

impl RunMode {
    /// The name of the mode.
    pub open spec fn name(self) -> Seq<char> {
        match self {
            RunMode::Mock => "mock"@,
            RunMode::Dev => "dev"@,
            RunMode::Prod => "prod"@,
        }
    }

    /// The name of the mode.
    pub fn as_str(self) -> (r: &'static str)
        ensures
            r@ == self.name(),
    {
        match self {
            RunMode::Mock => "mock",
            RunMode::Dev => "dev",
            RunMode::Prod => "prod",
        }
    }
}

/// A status that an operator may choose, with its label.
#[derive(Debug)]
pub struct StatusOptionView {
    pub value: String,
    pub label: String,
}

/// Whether `option` offers the status `status` under its label.
pub open spec fn offers(option: StatusOptionView, status: OrderStatus) -> bool {
    option.value@ == status_text(status) && option.label@ == order_status_label_text(
        status_text(status),
    )
}

/// All statuses, in the alphabetical order of their texts.
pub open spec fn all_statuses() -> Seq<OrderStatus> {
    seq![
        OrderStatus::Canceled,
        OrderStatus::Delivered,
        OrderStatus::Manufacturing,
        OrderStatus::Paid,
        OrderStatus::PendingPayment,
        OrderStatus::Refunded,
        OrderStatus::Shipped,
    ]
}

fn option_for(status: OrderStatus) -> (r: StatusOptionView)
    ensures
        offers(r, status),
{
    let value: &'static str = status.as_str();
    StatusOptionView { value: value.to_owned(), label: order_status_label(value).to_owned() }
}

/// The options of a filter by status: every status, in the alphabetical
/// order of the texts.
pub fn status_options() -> (r: Vec<StatusOptionView>)
    ensures
        r@.len() == all_statuses().len(),
        forall|i: int| 0 <= i < r@.len() ==> offers(#[trigger] r@[i], all_statuses()[i]),
{
    let mut out: Vec<StatusOptionView> = Vec::new();
    out.push(option_for(OrderStatus::Canceled));
    out.push(option_for(OrderStatus::Delivered));
    out.push(option_for(OrderStatus::Manufacturing));
    out.push(option_for(OrderStatus::Paid));
    out.push(option_for(OrderStatus::PendingPayment));
    out.push(option_for(OrderStatus::Refunded));
    out.push(option_for(OrderStatus::Shipped));
    out
}

/// The statuses that an operator may move an order to from `current`: those
/// that the transition table allows, in its order.
pub fn next_status_options(current: &str) -> (r: Vec<StatusOptionView>)
    ensures
        r@.len() == next_statuses(current@).len(),
        forall|i: int| 0 <= i < r@.len() ==> offers(#[trigger] r@[i], next_statuses(current@)[i]),
{
    let mut out: Vec<StatusOptionView> = Vec::new();
    match parse_status(current) {
        Some(OrderStatus::PendingPayment) => {
            out.push(option_for(OrderStatus::Paid));
            out.push(option_for(OrderStatus::Canceled));
        },
        Some(OrderStatus::Paid) => {
            out.push(option_for(OrderStatus::Manufacturing));
            out.push(option_for(OrderStatus::Refunded));
        },
        Some(OrderStatus::Manufacturing) => {
            out.push(option_for(OrderStatus::Shipped));
            out.push(option_for(OrderStatus::Refunded));
        },
        Some(OrderStatus::Shipped) => {
            out.push(option_for(OrderStatus::Delivered));
            out.push(option_for(OrderStatus::Refunded));
        },
        _ => {},
    }
    out
}

/// The status that may come with a shipment registered for an order in
/// `current`: of the statuses that the table allows, the one that says how
/// far fulfillment has come.
pub open spec fn shipping_follower(current: Seq<char>) -> Option<OrderStatus> {
    match status_of(current) {
        Some(OrderStatus::Paid) => Some(OrderStatus::Manufacturing),
        Some(OrderStatus::Manufacturing) => Some(OrderStatus::Shipped),
        Some(OrderStatus::Shipped) => Some(OrderStatus::Delivered),
        _ => None,
    }
}

/// The choices of a shipping update for an order in `current`: `none`, for
/// no change of status, then the status that may come with the shipment.
pub fn shipping_transition_options(current: &str) -> (r: Vec<StatusOptionView>)
    ensures
        r@.len() == if shipping_follower(current@) is Some {
            2int
        } else {
            1int
        },
        r@[0].value@ == "none"@,
        r@[0].label@ == "ステータス変更なし"@,
        shipping_follower(current@) matches Some(next) ==> offers(r@[1], next) && may_transition(
            current@,
            status_text(next),
        ),
{
    let mut out: Vec<StatusOptionView> = Vec::new();
    out.push(
        StatusOptionView { value: "none".to_owned(), label: "ステータス変更なし".to_owned() },
    );
    proof {
        lemma_status_text_round_trip(OrderStatus::Manufacturing);
        lemma_status_text_round_trip(OrderStatus::Shipped);
        lemma_status_text_round_trip(OrderStatus::Delivered);
    }
    match parse_status(current) {
        Some(OrderStatus::Paid) => {
            out.push(option_for(OrderStatus::Manufacturing));
        },
        Some(OrderStatus::Manufacturing) => {
            out.push(option_for(OrderStatus::Shipped));
        },
        Some(OrderStatus::Shipped) => {
            out.push(option_for(OrderStatus::Delivered));
        },
        _ => {},
    }
    out
}

/// A query value: trimmed, empty where it is absent.
pub fn normalize_query_value(value: Option<String>) -> (r: String)
    ensures
        r@ == match value {
            Some(text) => trimmed(text@),
            None => Seq::<char>::empty(),
        },
{
    match value {
        Some(text) => trim_owned(text.as_str()),
        None => String::new(),
    }
}

/// A storage path: trimmed, and without the slashes that it begins with.
pub fn normalize_storage_path(value: &str) -> (r: String)
    ensures
        r@ == skip_leading(trimmed(value@), '/'),
{
    strip_leading(trim(value), '/')
}

/// The file extension for the content type of an image.
pub open spec fn image_extension(content_type: Seq<char>) -> Seq<char> {
    if content_type == "image/jpeg"@ {
        "jpg"@
    } else if content_type == "image/png"@ {
        "png"@
    } else if content_type == "image/gif"@ {
        "gif"@
    } else if content_type == "image/avif"@ {
        "avif"@
    } else {
        "webp"@
    }
}

/// The file extension for the content type of an image; `webp` for a type
/// that is not known.
pub fn image_extension_for_content_type(content_type: &str) -> (r: &'static str)
    ensures
        r@ == image_extension(content_type@),
{
    if same_text(content_type, "image/jpeg") {
        "jpg"
    } else if same_text(content_type, "image/png") {
        "png"
    } else if same_text(content_type, "image/gif") {
        "gif"
    } else if same_text(content_type, "image/avif") {
        "avif"
    } else {
        "webp"
    }
}

/// The address to listen on: a bare port, with or without its colon, is
/// taken on all interfaces.
pub open spec fn bind_addr(http_addr: Seq<char>) -> Seq<char> {
    let t = trimmed(http_addr);
    if t.len() > 0 && t[0] == ':' {
        "0.0.0.0"@ + t
    } else if first_index(t, ':') < t.len() {
        t
    } else {
        "0.0.0.0:"@ + t
    }
}

/// The address to listen on.
pub fn normalize_bind_addr(http_addr: &str) -> (r: String)
    ensures
        r@ == bind_addr(http_addr@),
{
    let t = trim(http_addr);
    let v: Vec<char> = chars_of(t);
    assert(v@.subrange(0, v@.len() as int) =~= v@);
    if v.len() > 0 && v[0] == ':' {
        let mut out: String = "0.0.0.0".to_owned();
        out.append(t);
        out
    } else if find_char(&v, 0, ':') < v.len() {
        t.to_owned()
    } else {
        let mut out: String = "0.0.0.0:".to_owned();
        out.append(t);
        out
    }
}

/// Whether `c` may stand in a material key.
pub open spec fn is_material_key_char(c: char) -> bool {
    ('a' <= c && c <= 'z') || ('0' <= c && c <= '9') || c == '-' || c == '_'
}

/// What is wrong with a material key, if anything: it must not be empty,
/// not be longer than 64 bytes, not both begin and end with two
/// underscores, and hold lower-case letters, digits, hyphens and
/// underscores only.
pub open spec fn material_key_problem(key: Seq<char>) -> Option<Seq<char>> {
    if key.len() == 0 {
        Some("材質キーは必須です。"@)
    } else if encode_utf8(key).len() > 64 {
        Some("材質キーは 64 文字以内で入力してください。"@)
    } else if begins_with(key, "__"@) && ends_with(key, "__"@) {
        Some("材質キーに `__...__` 形式は利用できません。"@)
    } else if exists|i: int| 0 <= i < key.len() && !is_material_key_char(#[trigger] key[i]) {
        Some("材質キーは英小文字・数字・ハイフン・アンダースコアのみ使用できます。"@)
    } else {
        None
    }
}

/// Checks a material key; the error is the message for the operator.
pub fn validate_material_key(key: &str) -> (r: Result<(), String>)
    ensures
        match r {
            Ok(()) => material_key_problem(key@) is None,
            Err(message) => material_key_problem(key@) == Some(message@),
        },
{
    if key.is_empty() {
        return Err("材質キーは必須です。".to_owned());
    }
    if key.as_bytes().len() > 64 {
        return Err("材質キーは 64 文字以内で入力してください。".to_owned());
    }
    if starts_with(key, "__") && has_suffix(key, "__") {
        return Err("材質キーに `__...__` 形式は利用できません。".to_owned());
    }
    let v: Vec<char> = chars_of(key);
    let mut i: usize = 0;
    while i < v.len()
        invariant
            i <= v@.len(),
            v@ == key@,
            key@.len() > 0,
            encode_utf8(key@).len() <= 64,
            !(begins_with(key@, "__"@) && ends_with(key@, "__"@)),
            forall|j: int| 0 <= j < i ==> is_material_key_char(#[trigger] v@[j]),
        decreases v@.len() - i,
    {
        let c: char = v[i];
        if !(('a' <= c && c <= 'z') || ('0' <= c && c <= '9') || c == '-' || c == '_') {
            return Err(
                "材質キーは英小文字・数字・ハイフン・アンダースコアのみ使用できます。".to_owned(),
            );
        }
        i += 1;
    }
    Ok(())
}

/// Whether a path, in lower case, begins like a URL.
pub open spec fn looks_like_url(lowered: Seq<char>) -> bool {
    begins_with(lowered, "http://"@) || begins_with(lowered, "https://"@) || begins_with(
        lowered,
        "gs://"@,
    )
}

/// What is wrong with the storage path of a photo, if anything: an empty
/// path is accepted; any other must be no URL and hold no white space.
pub open spec fn photo_path_problem(storage_path: Seq<char>) -> Option<Seq<char>> {
    if storage_path.len() == 0 {
        None
    } else if looks_like_url(lowercase(storage_path)) {
        Some(
            "写真は URL ではなく Storage パス（例: materials/titanium/mat_titanium_01.webp）を入力してください。"@,
        )
    } else if has_space(storage_path) {
        Some("写真パスに空白文字は使用できません。"@)
    } else {
        None
    }
}

/// Checks the storage path of a photo; the error is the message for the operator.
pub fn validate_material_photo_storage_path(storage_path: &str) -> (r: Result<(), String>)
    ensures
        match r {
            Ok(()) => photo_path_problem(storage_path@) is None,
            Err(message) => photo_path_problem(storage_path@) == Some(message@),
        },
{
    if storage_path.is_empty() {
        return Ok(());
    }
    let lowered: String = to_lowercase(storage_path);
    if starts_with(lowered.as_str(), "http://") || starts_with(lowered.as_str(), "https://")
        || starts_with(lowered.as_str(), "gs://") {
        return Err(
            "写真は URL ではなく Storage パス（例: materials/titanium/mat_titanium_01.webp）を入力してください。".to_owned(),
        );
    }
    if contains_whitespace(storage_path) {
        return Err("写真パスに空白文字は使用できません。".to_owned());
    }
    Ok(())
}

/// What is wrong with the values of a material, if anything: both labels and
/// both descriptions are required, price and sort order must not be
/// negative, and the photo's path must pass its own check.
pub open spec fn material_values_problem(
    label_ja: Seq<char>,
    label_en: Seq<char>,
    description_ja: Seq<char>,
    description_en: Seq<char>,
    price_jpy: i64,
    sort_order: i64,
    photo_storage_path: Seq<char>,
) -> Option<Seq<char>> {
    if label_ja.len() == 0 || label_en.len() == 0 {
        Some("材質名（ja/en）は必須です。"@)
    } else if description_ja.len() == 0 || description_en.len() == 0 {
        Some("説明文（ja/en）は必須です。"@)
    } else if price_jpy < 0 {
        Some("価格は 0 以上で入力してください。"@)
    } else if sort_order < 0 {
        Some("表示順は 0 以上で入力してください。"@)
    } else {
        photo_path_problem(photo_storage_path)
    }
}

/// Checks the values of a material; the error is the message for the operator.
pub fn validate_material_values(
    label_ja: &str,
    label_en: &str,
    description_ja: &str,
    description_en: &str,
    price_jpy: i64,
    sort_order: i64,
    photo_storage_path: &str,
) -> (r: Result<(), String>)
    ensures
        match r {
            Ok(()) => material_values_problem(
                label_ja@,
                label_en@,
                description_ja@,
                description_en@,
                price_jpy,
                sort_order,
                photo_storage_path@,
            ) is None,
            Err(message) => material_values_problem(
                label_ja@,
                label_en@,
                description_ja@,
                description_en@,
                price_jpy,
                sort_order,
                photo_storage_path@,
            ) == Some(message@),
        },
{
    if label_ja.is_empty() || label_en.is_empty() {
        return Err("材質名（ja/en）は必須です。".to_owned());
    }
    if description_ja.is_empty() || description_en.is_empty() {
        return Err("説明文（ja/en）は必須です。".to_owned());
    }
    if price_jpy < 0 {
        return Err("価格は 0 以上で入力してください。".to_owned());
    }
    if sort_order < 0 {
        return Err("表示順は 0 以上で入力してください。".to_owned());
    }
    validate_material_photo_storage_path(photo_storage_path)
}

/// Named texts: pairs of a name and a text, as a form or a table of labels
/// holds them. Of pairs with the same name the first counts.
pub type NamedTexts = Vec<(String, String)>;

/// The text under `name` at or after `from`, if there is one.
pub open spec fn text_named(pairs: Seq<(String, String)>, name: Seq<char>, from: int) -> Option<
    Seq<char>,
>
    decreases pairs.len() - from,
{
    if from < 0 || from >= pairs.len() {
        None
    } else if pairs[from].0@ == name {
        Some(pairs[from].1@)
    } else {
        text_named(pairs, name, from + 1)
    }
}

/// Whether no two pairs have the same name: what a form or a table keyed
/// by name holds by its making.
pub open spec fn distinct_names(pairs: Seq<(String, String)>) -> bool {
    forall|i: int, j: int| 0 <= i < j < pairs.len() ==> pairs[i].0@ != pairs[j].0@
}

/// Among pairs without repeated names, the text under a name is found
/// wherever its pair stands.
pub proof fn lemma_named_text_is_found(pairs: Seq<(String, String)>, i: int, from: int)
    requires
        distinct_names(pairs),
        0 <= from <= i < pairs.len(),
    ensures
        text_named(pairs, pairs[i].0@, from) == Some(pairs[i].1@),
    decreases i - from,
{
    if from < i {
        lemma_named_text_is_found(pairs, i, from + 1);
    }
}

fn find_named(pairs: &NamedTexts, name: &str) -> (r: Option<usize>)
    ensures
        match r {
            Some(i) => i < pairs@.len() && text_named(pairs@, name@, 0) == Some(
                pairs@[i as int].1@,
            ),
            None => text_named(pairs@, name@, 0) is None,
        },
{
    let mut i: usize = 0;
    while i < pairs.len()
        invariant
            i <= pairs@.len(),
            text_named(pairs@, name@, 0) == text_named(pairs@, name@, i as int),
        decreases pairs@.len() - i,
    {
        if same_text(pairs[i].0.as_str(), name) {
            return Some(i);
        }
        i += 1;
    }
    None
}

/// Whether the form has the field `key`.
pub fn has_field(form: &NamedTexts, key: &str) -> (r: bool)
    ensures
        r == (text_named(form@, key@, 0) is Some),
{
    find_named(form, key).is_some()
}

/// The value of a form field, trimmed; empty where the form has none.
pub open spec fn field_text(form: Seq<(String, String)>, key: Seq<char>) -> Seq<char> {
    match text_named(form, key, 0) {
        Some(value) => trimmed(value),
        None => Seq::<char>::empty(),
    }
}

/// The value of the form field `key`, trimmed; empty where the form has no such field.
pub fn form_value(form: &NamedTexts, key: &str) -> (r: String)
    ensures
        r@ == field_text(form@, key@),
{
    match find_named(form, key) {
        Some(i) => trim_owned(form[i].1.as_str()),
        None => String::new(),
    }
}

/// The label of the country `code`; the code itself where no label is known.
pub fn country_label(countries: &NamedTexts, code: &str) -> (r: String)
    ensures
        r@ == match text_named(countries@, code@, 0) {
            Some(label) => label,
            None => code@,
        },
{
    match find_named(countries, code) {
        Some(i) => countries[i].1.clone(),
        None => code.to_owned(),
    }
}

} // verus!
