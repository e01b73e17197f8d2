use vstd::prelude::*;
use crate::text::{lowercase, same_text, trim_lower, trim_owned, trim_upper, trimmed, uppercase};
use crate::text::{has_space, lemma_trimmed_has_no_space_at_its_ends};
use crate::validation::{
    is_email, is_idempotency_key, is_locale_tag, is_valid_email, is_valid_idempotency_key,
    is_valid_locale_tag, seal_line_problem,
};

verus! {

/// The seal that is ordered.
#[derive(Debug)]
pub struct SealInput {
    pub line1: String,
    pub line2: String,
    pub shape: String,
    pub font_key: String,
}

/// Where the order goes.
#[derive(Debug)]
pub struct ShippingInput {
    pub country_code: String,
    pub recipient_name: String,
    pub phone: String,
    pub postal_code: String,
    pub state: String,
    pub city: String,
    pub address_line1: String,
    pub address_line2: String,
}

/// How to reach the buyer.
#[derive(Debug)]
pub struct ContactInput {
    pub email: String,
    pub preferred_locale: String,
}

/// A request to create an order.
#[derive(Debug)]
pub struct CreateOrderInput {
    pub channel: String,
    pub locale: String,
    pub idempotency_key: String,
    pub terms_agreed: bool,
    pub seal: SealInput,
    pub material_key: String,
    pub shipping: ShippingInput,
    pub contact: ContactInput,
}

/// A request as it arrives, before it is checked.
pub type CreateOrderRequest = CreateOrderInput;

/// The seal of a request as it arrives.
pub type CreateOrderSealRequest = SealInput;

/// The address of a request as it arrives.
pub type CreateOrderShippingRequest = ShippingInput;

/// The contact of a request as it arrives.
pub type CreateOrderContactRequest = ContactInput;

/// What a seal holds.
pub struct SealView {
    pub line1: Seq<char>,
    pub line2: Seq<char>,
    pub shape: Seq<char>,
    pub font_key: Seq<char>,
}

/// What an address holds.
pub struct ShippingView {
    pub country_code: Seq<char>,
    pub recipient_name: Seq<char>,
    pub phone: Seq<char>,
    pub postal_code: Seq<char>,
    pub state: Seq<char>,
    pub city: Seq<char>,
    pub address_line1: Seq<char>,
    pub address_line2: Seq<char>,
}

/// What a contact holds.
pub struct ContactView {
    pub email: Seq<char>,
    pub preferred_locale: Seq<char>,
}

/// What a request holds.
pub struct CreateOrderView {
    pub channel: Seq<char>,
    pub locale: Seq<char>,
    pub idempotency_key: Seq<char>,
    pub terms_agreed: bool,
    pub seal: SealView,
    pub material_key: Seq<char>,
    pub shipping: ShippingView,
    pub contact: ContactView,
}

impl View for SealInput {
    type V = SealView;

    open spec fn view(&self) -> SealView {
        SealView {
            line1: self.line1@,
            line2: self.line2@,
            shape: self.shape@,
            font_key: self.font_key@,
        }
    }
}

impl View for ShippingInput {
    type V = ShippingView;

    open spec fn view(&self) -> ShippingView {
        ShippingView {
            country_code: self.country_code@,
            recipient_name: self.recipient_name@,
            phone: self.phone@,
            postal_code: self.postal_code@,
            state: self.state@,
            city: self.city@,
            address_line1: self.address_line1@,
            address_line2: self.address_line2@,
        }
    }
}

impl View for ContactInput {
    type V = ContactView;

    open spec fn view(&self) -> ContactView {
        ContactView { email: self.email@, preferred_locale: self.preferred_locale@ }
    }
}

impl View for CreateOrderInput {
    type V = CreateOrderView;

    open spec fn view(&self) -> CreateOrderView {
        CreateOrderView {
            channel: self.channel@,
            locale: self.locale@,
            idempotency_key: self.idempotency_key@,
            terms_agreed: self.terms_agreed,
            seal: self.seal@,
            material_key: self.material_key@,
            shipping: self.shipping@,
            contact: self.contact@,
        }
    }
}

/// A request in its normal form: every text trimmed; channel, locales and
/// shape in lower case; the country code in upper case.
pub open spec fn normalized_request(r: CreateOrderView) -> CreateOrderView {
    CreateOrderView {
        channel: lowercase(trimmed(r.channel)),
        locale: lowercase(trimmed(r.locale)),
        idempotency_key: trimmed(r.idempotency_key),
        terms_agreed: r.terms_agreed,
        seal: SealView {
            line1: trimmed(r.seal.line1),
            line2: trimmed(r.seal.line2),
            shape: lowercase(trimmed(r.seal.shape)),
            font_key: trimmed(r.seal.font_key),
        },
        material_key: trimmed(r.material_key),
        shipping: ShippingView {
            country_code: uppercase(trimmed(r.shipping.country_code)),
            recipient_name: trimmed(r.shipping.recipient_name),
            phone: trimmed(r.shipping.phone),
            postal_code: trimmed(r.shipping.postal_code),
            state: trimmed(r.shipping.state),
            city: trimmed(r.shipping.city),
            address_line1: trimmed(r.shipping.address_line1),
            address_line2: trimmed(r.shipping.address_line2),
        },
        contact: ContactView {
            email: trimmed(r.contact.email),
            preferred_locale: lowercase(trimmed(r.contact.preferred_locale)),
        },
    }
}

/// Brings a request into its normal form.
pub fn normalize_create_order_input(input: CreateOrderInput) -> (r: CreateOrderInput)
    ensures
        r@ == normalized_request(input@),
{
    CreateOrderInput {
        channel: trim_lower(input.channel.as_str()),
        locale: trim_lower(input.locale.as_str()),
        idempotency_key: trim_owned(input.idempotency_key.as_str()),
        terms_agreed: input.terms_agreed,
        seal: SealInput {
            line1: trim_owned(input.seal.line1.as_str()),
            line2: trim_owned(input.seal.line2.as_str()),
            shape: trim_lower(input.seal.shape.as_str()),
            font_key: trim_owned(input.seal.font_key.as_str()),
        },
        material_key: trim_owned(input.material_key.as_str()),
        shipping: ShippingInput {
            country_code: trim_upper(input.shipping.country_code.as_str()),
            recipient_name: trim_owned(input.shipping.recipient_name.as_str()),
            phone: trim_owned(input.shipping.phone.as_str()),
            postal_code: trim_owned(input.shipping.postal_code.as_str()),
            state: trim_owned(input.shipping.state.as_str()),
            city: trim_owned(input.shipping.city.as_str()),
            address_line1: trim_owned(input.shipping.address_line1.as_str()),
            address_line2: trim_owned(input.shipping.address_line2.as_str()),
        },
        contact: ContactInput {
            email: trim_owned(input.contact.email.as_str()),
            preferred_locale: trim_lower(input.contact.preferred_locale.as_str()),
        },
    }
}

/// The rule that a request breaks.
#[derive(Clone, Copy, Debug, PartialEq, Eq, Structural)]
pub enum ValidationError {
    Channel,
    Locale,
    IdempotencyKey,
    TermsNotAgreed,
    SealLine1Length,
    SealLine2Length,
    SealTotalLength,
    Shape,
    FontKey,
    MaterialKey,
    CountryCode,
    RecipientName,
    Phone,
    PostalCode,
    State,
    City,
    AddressLine1,
    EmailRequired,
    EmailInvalid,
    PreferredLocale,
}

/// The first rule that a request breaks, if it breaks one. The rules are
/// applied to the normal form of the request, in the order of the variants.
/// The first line of the seal holds one or two characters, the second at
/// most two, and both together at most two.
pub open spec fn validation_failure(request: CreateOrderView) -> Option<ValidationError> {
    let n = normalized_request(request);
    if n.channel != "app"@ && n.channel != "web"@ {
        Some(ValidationError::Channel)
    } else if !is_locale_tag(n.locale) {
        Some(ValidationError::Locale)
    } else if !is_idempotency_key(n.idempotency_key) {
        Some(ValidationError::IdempotencyKey)
    } else if !n.terms_agreed {
        Some(ValidationError::TermsNotAgreed)
    } else if n.seal.line1.len() < 1 || n.seal.line1.len() > 2 {
        Some(ValidationError::SealLine1Length)
    } else if n.seal.line2.len() > 2 {
        Some(ValidationError::SealLine2Length)
    } else if n.seal.line1.len() + n.seal.line2.len() > 2 {
        Some(ValidationError::SealTotalLength)
    } else if n.seal.shape != "square"@ && n.seal.shape != "round"@ {
        Some(ValidationError::Shape)
    } else if n.seal.font_key.len() == 0 {
        Some(ValidationError::FontKey)
    } else if n.material_key.len() == 0 {
        Some(ValidationError::MaterialKey)
    } else if n.shipping.country_code.len() != 2 {
        Some(ValidationError::CountryCode)
    } else if n.shipping.recipient_name.len() == 0 {
        Some(ValidationError::RecipientName)
    } else if n.shipping.phone.len() == 0 {
        Some(ValidationError::Phone)
    } else if n.shipping.postal_code.len() == 0 {
        Some(ValidationError::PostalCode)
    } else if n.shipping.state.len() == 0 {
        Some(ValidationError::State)
    } else if n.shipping.city.len() == 0 {
        Some(ValidationError::City)
    } else if n.shipping.address_line1.len() == 0 {
        Some(ValidationError::AddressLine1)
    } else if n.contact.email.len() == 0 {
        Some(ValidationError::EmailRequired)
    } else if !is_email(n.contact.email) {
        Some(ValidationError::EmailInvalid)
    } else if !is_locale_tag(n.contact.preferred_locale) {
        Some(ValidationError::PreferredLocale)
    } else {
        None
    }
}

/// Checks a request and brings it into its normal form.
pub fn validate_create_order_request(request: CreateOrderRequest) -> (r: Result<
    CreateOrderInput,
    ValidationError,
>)
    ensures
        match r {
            Ok(input) => validation_failure(request@) is None && input@ == normalized_request(
                request@,
            ),
            Err(e) => validation_failure(request@) == Some(e),
        },
{
    let n = normalize_create_order_input(request);
    if !same_text(n.channel.as_str(), "app") && !same_text(n.channel.as_str(), "web") {
        return Err(ValidationError::Channel);
    }
    if !is_valid_locale_tag(n.locale.as_str()) {
        return Err(ValidationError::Locale);
    }
    if !is_valid_idempotency_key(n.idempotency_key.as_str()) {
        return Err(ValidationError::IdempotencyKey);
    }
    if !n.terms_agreed {
        return Err(ValidationError::TermsNotAgreed);
    }
    let first: usize = n.seal.line1.as_str().unicode_len();
    if first < 1 || first > 2 {
        return Err(ValidationError::SealLine1Length);
    }
    let second: usize = n.seal.line2.as_str().unicode_len();
    if second > 2 {
        return Err(ValidationError::SealLine2Length);
    }
    if first + second > 2 {
        return Err(ValidationError::SealTotalLength);
    }
    if !same_text(n.seal.shape.as_str(), "square") && !same_text(n.seal.shape.as_str(), "round") {
        return Err(ValidationError::Shape);
    }
    if n.seal.font_key.as_str().is_empty() {
        return Err(ValidationError::FontKey);
    }
    if n.material_key.as_str().is_empty() {
        return Err(ValidationError::MaterialKey);
    }
    if n.shipping.country_code.as_str().unicode_len() != 2 {
        return Err(ValidationError::CountryCode);
    }
    if n.shipping.recipient_name.as_str().is_empty() {
        return Err(ValidationError::RecipientName);
    }
    if n.shipping.phone.as_str().is_empty() {
        return Err(ValidationError::Phone);
    }
    if n.shipping.postal_code.as_str().is_empty() {
        return Err(ValidationError::PostalCode);
    }
    if n.shipping.state.as_str().is_empty() {
        return Err(ValidationError::State);
    }
    if n.shipping.city.as_str().is_empty() {
        return Err(ValidationError::City);
    }
    if n.shipping.address_line1.as_str().is_empty() {
        return Err(ValidationError::AddressLine1);
    }
    if n.contact.email.as_str().is_empty() {
        return Err(ValidationError::EmailRequired);
    }
    if !is_valid_email(n.contact.email.as_str()) {
        return Err(ValidationError::EmailInvalid);
    }
    if !is_valid_locale_tag(n.contact.preferred_locale.as_str()) {
        return Err(ValidationError::PreferredLocale);
    }
    Ok(n)
}

impl ValidationError {
    /// The message for the rule.
    pub open spec fn message_text(self) -> Seq<char> {
        match self {
            ValidationError::Channel => "channel must be one of app or web"@,
            ValidationError::Locale => "locale must be a valid BCP-47 lowercase tag"@,
            ValidationError::IdempotencyKey => "idempotency_key must match ^[A-Za-z0-9_-]{8,128}$"@,
            ValidationError::TermsNotAgreed => "terms_agreed must be true"@,
            ValidationError::SealLine1Length => "seal.line1 must be 1-2 characters"@,
            ValidationError::SealLine2Length => "seal.line2 must be 0-2 characters"@,
            ValidationError::SealTotalLength =>
                "seal.line1 and seal.line2 must be 2 characters or fewer in total"@,
            ValidationError::Shape => "seal.shape must be one of square or round"@,
            ValidationError::FontKey => "seal.font_key is required"@,
            ValidationError::MaterialKey => "material_key is required"@,
            ValidationError::CountryCode => "shipping.country_code must be ISO alpha-2"@,
            ValidationError::RecipientName => "shipping.recipient_name is required"@,
            ValidationError::Phone => "shipping.phone is required"@,
            ValidationError::PostalCode => "shipping.postal_code is required"@,
            ValidationError::State => "shipping.state is required"@,
            ValidationError::City => "shipping.city is required"@,
            ValidationError::AddressLine1 => "shipping.address_line1 is required"@,
            ValidationError::EmailRequired => "contact.email is required"@,
            ValidationError::EmailInvalid => "contact.email must be valid"@,
            ValidationError::PreferredLocale =>
                "contact.preferred_locale must be a valid BCP-47 lowercase tag"@,
        }
    }

    /// The message for the rule.
    pub fn message(self) -> (r: &'static str)
        ensures
            r@ == self.message_text(),
    {
        match self {
            ValidationError::Channel => "channel must be one of app or web",
            ValidationError::Locale => "locale must be a valid BCP-47 lowercase tag",
            ValidationError::IdempotencyKey => "idempotency_key must match ^[A-Za-z0-9_-]{8,128}$",
            ValidationError::TermsNotAgreed => "terms_agreed must be true",
            ValidationError::SealLine1Length => "seal.line1 must be 1-2 characters",
            ValidationError::SealLine2Length => "seal.line2 must be 0-2 characters",
            ValidationError::SealTotalLength =>
                "seal.line1 and seal.line2 must be 2 characters or fewer in total",
            ValidationError::Shape => "seal.shape must be one of square or round",
            ValidationError::FontKey => "seal.font_key is required",
            ValidationError::MaterialKey => "material_key is required",
            ValidationError::CountryCode => "shipping.country_code must be ISO alpha-2",
            ValidationError::RecipientName => "shipping.recipient_name is required",
            ValidationError::Phone => "shipping.phone is required",
            ValidationError::PostalCode => "shipping.postal_code is required",
            ValidationError::State => "shipping.state is required",
            ValidationError::City => "shipping.city is required",
            ValidationError::AddressLine1 => "shipping.address_line1 is required",
            ValidationError::EmailRequired => "contact.email is required",
            ValidationError::EmailInvalid => "contact.email must be valid",
            ValidationError::PreferredLocale =>
                "contact.preferred_locale must be a valid BCP-47 lowercase tag",
        }
    }
}

/// The seal of a request that is accepted holds one or two characters over
/// both lines, at least one of them on the first, and no white space: a
/// trimmed line of two characters at most has none at its ends, and nothing
/// lies between its ends.
pub proof fn lemma_accepted_seal_lines_hold_no_space(request: CreateOrderView)
    requires
        validation_failure(request) is None,
    ensures
        1 <= normalized_request(request).seal.line1.len(),
        normalized_request(request).seal.line1.len() + normalized_request(
            request,
        ).seal.line2.len() <= 2,
        !has_space(normalized_request(request).seal.line1),
        !has_space(normalized_request(request).seal.line2),
        seal_line_problem(normalized_request(request).seal.line1, 1, 2) is None,
        seal_line_problem(normalized_request(request).seal.line2, 0, 2) is None,
{
    lemma_trimmed_has_no_space_at_its_ends(request.seal.line1);
    lemma_trimmed_has_no_space_at_its_ends(request.seal.line2);
}

/// A seal of more than two characters over both lines is refused, however
/// they are spread over the lines.
pub proof fn lemma_long_seal_is_refused(request: CreateOrderView)
    requires
        normalized_request(request).seal.line1.len() + normalized_request(request).seal.line2.len()
            > 2,
    ensures
        validation_failure(request) is Some,
{
}

} // verus!
