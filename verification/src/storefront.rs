use vstd::prelude::*;
use vstd::string::StringExecFns;
use crate::admin::{field_text, form_value, NamedTexts};
use crate::config::contains;
use crate::crypto::{hex_encode, lemma_hex_char, random_uuid_bytes};
use crate::validation::{is_idempotency_key, is_key_char};
use crate::request::{
    ContactInput, ContactView, CreateOrderInput, CreateOrderView, SealInput, SealView,
    ShippingInput, ShippingView,
};
use crate::number::{decimal_digits, push_decimal_digits};
use crate::text::{
    ascii_lowercase, chars_of, contains_whitespace, has_space, lowercase, same_text,
    strings_view, text_of, to_ascii_lowercase, trim, trim_lower, trim_owned, trimmed,
};

verus! {

/// The label of a seal shape, for a shape that is known.
pub open spec fn shape_label_text(shape_key: Seq<char>) -> Option<Seq<char>> {
    if shape_key == "square"@ {
        Some("角印"@)
    } else if shape_key == "round"@ {
        Some("丸印"@)
    } else {
        None
    }
}

/// The label of a seal shape, for a shape that is known.
pub fn shape_label(shape_key: &str) -> (r: Option<&'static str>)
    ensures
        match r {
            Some(label) => shape_label_text(shape_key@) == Some(label@),
            None => shape_label_text(shape_key@) is None,
        },
{
    if same_text(shape_key, "square") {
        Some("角印")
    } else if same_text(shape_key, "round") {
        Some("丸印")
    } else {
        None
    }
}

/// The label of the shape that a material is cut to: round, or else square.
pub fn material_shape_label(shape_key: &str) -> (r: &'static str)
    ensures
        r@ == if shape_key@ == "round"@ {
            "丸印"@
        } else {
            "角印"@
        },
{
    if same_text(shape_key, "round") {
        "丸印"
    } else {
        "角印"
    }
}

/// The gender asked of name candidates: `male`, `female`, or `unspecified`
/// for anything else.
pub fn normalize_candidate_gender(raw: &str) -> (r: &'static str)
    ensures
        r@ == if lowercase(trimmed(raw@)) == "male"@ {
            "male"@
        } else if lowercase(trimmed(raw@)) == "female"@ {
            "female"@
        } else {
            "unspecified"@
        },
{
    let value: String = trim_lower(raw);
    if same_text(value.as_str(), "male") {
        "male"
    } else if same_text(value.as_str(), "female") {
        "female"
    } else {
        "unspecified"
    }
}

/// The style asked of name candidates: `chinese`, `taiwanese`, or `japanese`
/// for anything else.
pub fn normalize_kanji_style(raw: &str) -> (r: &'static str)
    ensures
        r@ == if lowercase(trimmed(raw@)) == "chinese"@ {
            "chinese"@
        } else if lowercase(trimmed(raw@)) == "taiwanese"@ {
            "taiwanese"@
        } else {
            "japanese"@
        },
{
    let value: String = trim_lower(raw);
    if same_text(value.as_str(), "chinese") {
        "chinese"
    } else if same_text(value.as_str(), "taiwanese") {
        "taiwanese"
    } else {
        "japanese"
    }
}

/// What is wrong with the two lines of a seal as the buyer typed them, if
/// anything: the first line is required, neither line may hold white space
/// inside, and both together hold two characters at most.
pub open spec fn seal_lines_problem(line1: Seq<char>, line2: Seq<char>) -> Option<Seq<char>> {
    let first = trimmed(line1);
    let second = trimmed(line2);
    if first.len() == 0 {
        Some("お名前を入力してください。"@)
    } else if has_space(first) {
        Some("1行目に空白は使えません。"@)
    } else if has_space(second) {
        Some("2行目に空白は使えません。"@)
    } else if first.len() + second.len() > 2 {
        Some("印影テキストは1行目と2行目の合計で2文字以内で入力してください。"@)
    } else {
        None
    }
}

/// Checks the two lines of a seal; the error is the message for the buyer.
pub fn validate_seal_lines(line1: &str, line2: &str) -> (r: Result<(), String>)
    ensures
        match r {
            Ok(()) => seal_lines_problem(line1@, line2@) is None,
            Err(message) => seal_lines_problem(line1@, line2@) == Some(message@),
        },
{
    let first = trim(line1);
    let second = trim(line2);
    if first.is_empty() {
        return Err("お名前を入力してください。".to_owned());
    }
    if contains_whitespace(first) {
        return Err("1行目に空白は使えません。".to_owned());
    }
    if !second.is_empty() && contains_whitespace(second) {
        return Err("2行目に空白は使えません。".to_owned());
    }
    let a: usize = first.unicode_len();
    let b: usize = second.unicode_len();
    if a > 2 || b > 2 || a + b > 2 {
        return Err(
            "印影テキストは1行目と2行目の合計で2文字以内で入力してください。".to_owned(),
        );
    }
    Ok(())
}

/// The number of name candidates that is asked for where the request names none.
pub const DEFAULT_KANJI_CANDIDATE_COUNT: usize = 6;

/// The largest number of name candidates that may be asked for.
pub const MAX_KANJI_CANDIDATE_COUNT: usize = 10;

/// A request for name candidates as it arrives.
#[derive(Debug)]
pub struct GenerateKanjiCandidatesRequest {
    pub real_name: String,
    pub reason_language: Option<String>,
    pub count: Option<usize>,
}

/// A request for name candidates that has been checked.
#[derive(Debug)]
pub struct GenerateKanjiCandidatesInput {
    pub real_name: String,
    pub reason_language: String,
    pub count: usize,
}

/// The rule that a request for name candidates breaks.
#[derive(Clone, Copy, Debug, PartialEq, Eq, Structural)]
pub enum KanjiRequestError {
    RealNameRequired,
    RealNameTooLong,
    ReasonLanguageRequired,
    ReasonLanguageTooLong,
    CountOutOfRange,
}

/// The language of the reasons: the one that is asked for, trimmed; English
/// where none is.
pub open spec fn wanted_reason_language(reason_language: Option<String>) -> Seq<char> {
    match reason_language {
        Some(language) => trimmed(language@),
        None => "en"@,
    }
}

/// The number of candidates: the one that is asked for, or the default.
pub open spec fn wanted_count(count: Option<usize>) -> usize {
    match count {
        Some(n) => n,
        None => DEFAULT_KANJI_CANDIDATE_COUNT,
    }
}

/// The first rule that a request for name candidates breaks, if it breaks
/// one: the name is required and holds 120 characters at most, the language
/// is required and holds 32 at most, and the count is 1 to 10.
pub open spec fn kanji_request_failure(request: GenerateKanjiCandidatesRequest) -> Option<
    KanjiRequestError,
> {
    if trimmed(request.real_name@).len() == 0 {
        Some(KanjiRequestError::RealNameRequired)
    } else if trimmed(request.real_name@).len() > 120 {
        Some(KanjiRequestError::RealNameTooLong)
    } else if wanted_reason_language(request.reason_language).len() == 0 {
        Some(KanjiRequestError::ReasonLanguageRequired)
    } else if wanted_reason_language(request.reason_language).len() > 32 {
        Some(KanjiRequestError::ReasonLanguageTooLong)
    } else if wanted_count(request.count) == 0 || wanted_count(request.count)
        > MAX_KANJI_CANDIDATE_COUNT {
        Some(KanjiRequestError::CountOutOfRange)
    } else {
        None
    }
}

impl KanjiRequestError {
    /// The message for the rule.
    pub fn message(self) -> (r: &'static str)
        ensures
            r@ == match self {
                KanjiRequestError::RealNameRequired => "real_name is required"@,
                KanjiRequestError::RealNameTooLong => "real_name must be 120 characters or fewer"@,
                KanjiRequestError::ReasonLanguageRequired => "reason_language is required"@,
                KanjiRequestError::ReasonLanguageTooLong =>
                    "reason_language must be 32 characters or fewer"@,
                KanjiRequestError::CountOutOfRange => "count must be in range 1-10"@,
            },
    {
        match self {
            KanjiRequestError::RealNameRequired => "real_name is required",
            KanjiRequestError::RealNameTooLong => "real_name must be 120 characters or fewer",
            KanjiRequestError::ReasonLanguageRequired => "reason_language is required",
            KanjiRequestError::ReasonLanguageTooLong =>
                "reason_language must be 32 characters or fewer",
            KanjiRequestError::CountOutOfRange => "count must be in range 1-10",
        }
    }
}

/// Checks a request for name candidates and fills in what it leaves open.
pub fn validate_generate_kanji_candidates_request(request: GenerateKanjiCandidatesRequest) -> (r:
    Result<GenerateKanjiCandidatesInput, KanjiRequestError>)
    ensures
        match r {
            Ok(input) => {
                &&& kanji_request_failure(request) is None
                &&& input.real_name@ == trimmed(request.real_name@)
                &&& input.reason_language@ == wanted_reason_language(request.reason_language)
                &&& input.count == wanted_count(request.count)
            },
            Err(e) => kanji_request_failure(request) == Some(e),
        },
{
    let real_name: String = trim_owned(request.real_name.as_str());
    if real_name.as_str().is_empty() {
        return Err(KanjiRequestError::RealNameRequired);
    }
    if real_name.as_str().unicode_len() > 120 {
        return Err(KanjiRequestError::RealNameTooLong);
    }
    let reason_language: String = match &request.reason_language {
        Some(language) => trim_owned(language.as_str()),
        None => "en".to_owned(),
    };
    if reason_language.as_str().is_empty() {
        return Err(KanjiRequestError::ReasonLanguageRequired);
    }
    if reason_language.as_str().unicode_len() > 32 {
        return Err(KanjiRequestError::ReasonLanguageTooLong);
    }
    let count: usize = match request.count {
        Some(n) => n,
        None => DEFAULT_KANJI_CANDIDATE_COUNT,
    };
    if count == 0 || count > MAX_KANJI_CANDIDATE_COUNT {
        return Err(KanjiRequestError::CountOutOfRange);
    }
    Ok(GenerateKanjiCandidatesInput { real_name, reason_language, count })
}

/// The shape that a material is cut to: `round`, or `square` for anything else.
pub fn normalize_material_shape(raw: &str) -> (r: &'static str)
    ensures
        r@ == if ascii_lowercase(trimmed(raw@)) == "round"@ {
            "round"@
        } else {
            "square"@
        },
{
    let lowered: String = text_of(&to_ascii_lowercase(&chars_of(trim(raw))));
    if same_text(lowered.as_str(), "round") {
        "round"
    } else {
        "square"
    }
}

/// A font that the storefront offers.
#[derive(Debug)]
pub struct FontOption {
    pub key: String,
    pub label: String,
    pub family: String,
    pub stylesheet_url: String,
    pub kanji_style: String,
}

/// A material that the storefront offers.
#[derive(Debug)]
pub struct MaterialOption {
    pub key: String,
    pub label: String,
    pub description: String,
    pub shape: String,
    pub shape_label: String,
    pub price: i64,
    pub price_display: String,
    pub photo_url: String,
    pub photo_alt: String,
    pub has_photo: bool,
}

/// A country that the storefront ships to.
#[derive(Debug)]
pub struct CountryOption {
    pub code: String,
    pub label: String,
    pub shipping: i64,
}

/// What the storefront offers.
#[derive(Debug)]
pub struct CatalogData {
    pub fonts: Vec<FontOption>,
    pub materials: Vec<MaterialOption>,
    pub countries: Vec<CountryOption>,
}

/// What a catalog lacks.
#[derive(Clone, Copy, Debug, PartialEq, Eq, Structural)]
pub enum CatalogError {
    NoFonts,
    NoMaterials,
    NoCountries,
}

impl CatalogError {
    /// The message for what is lacking.
    pub fn message(self) -> (r: &'static str)
        ensures
            r@ == match self {
                CatalogError::NoFonts => "catalog validation failed: fonts is empty"@,
                CatalogError::NoMaterials => "catalog validation failed: materials is empty"@,
                CatalogError::NoCountries => "catalog validation failed: countries is empty"@,
            },
    {
        match self {
            CatalogError::NoFonts => "catalog validation failed: fonts is empty",
            CatalogError::NoMaterials => "catalog validation failed: materials is empty",
            CatalogError::NoCountries => "catalog validation failed: countries is empty",
        }
    }
}

/// What a catalog lacks, if anything: fonts are looked at first, then
/// materials, then countries.
pub open spec fn catalog_problem(catalog: CatalogData) -> Option<CatalogError> {
    if catalog.fonts@.len() == 0 {
        Some(CatalogError::NoFonts)
    } else if catalog.materials@.len() == 0 {
        Some(CatalogError::NoMaterials)
    } else if catalog.countries@.len() == 0 {
        Some(CatalogError::NoCountries)
    } else {
        None
    }
}

/// Checks that a catalog offers at least one font, material and country.
pub fn validate_catalog(catalog: &CatalogData) -> (r: Result<(), CatalogError>)
    ensures
        match r {
            Ok(()) => catalog_problem(*catalog) is None,
            Err(e) => catalog_problem(*catalog) == Some(e),
        },
{
    if catalog.fonts.len() == 0 {
        return Err(CatalogError::NoFonts);
    }
    if catalog.materials.len() == 0 {
        return Err(CatalogError::NoMaterials);
    }
    if catalog.countries.len() == 0 {
        return Err(CatalogError::NoCountries);
    }
    Ok(())
}

/// The style sheet addresses of the first `count` fonts, trimmed, without
/// the blank ones and without repetitions: the first occurrence stays.
pub open spec fn distinct_stylesheets(fonts: Seq<FontOption>, count: int) -> Seq<Seq<char>>
    decreases count,
{
    if count <= 0 {
        Seq::<Seq<char>>::empty()
    } else {
        let before = distinct_stylesheets(fonts, count - 1);
        let url = trimmed(fonts[count - 1].stylesheet_url@);
        if url.len() == 0 || before.contains(url) {
            before
        } else {
            before.push(url)
        }
    }
}

/// The style sheets to load for a list of fonts: each address once, in the
/// order of the fonts.
pub fn collect_font_stylesheet_urls(fonts: &Vec<FontOption>) -> (r: Vec<String>)
    ensures
        strings_view(r@) == distinct_stylesheets(fonts@, fonts@.len() as int),
{
    let mut urls: Vec<String> = Vec::new();
    let n: usize = fonts.len();
    let mut i: usize = 0;
    assert(strings_view(urls@) =~= Seq::<Seq<char>>::empty());
    while i < n
        invariant
            i <= n,
            n == fonts@.len(),
            strings_view(urls@) == distinct_stylesheets(fonts@, i as int),
        decreases n - i,
    {
        let url = trim(fonts[i].stylesheet_url.as_str());
        if !url.is_empty() && !contains(&urls, url) {
            let ghost before = strings_view(urls@);
            urls.push(url.to_owned());
            assert(strings_view(urls@) =~= before.push(url@));
        }
        i += 1;
    }
    urls
}

/// The instruction that asks for name candidates.
pub open spec fn kanji_prompt(real_name: Seq<char>, reason_language: Seq<char>, count: nat) -> Seq<
    char,
> {
    "Generate "@ + decimal_digits(count)
        + " unique Japanese name candidates for a hanko seal.\nInput name: \""@ + real_name
        + "\"\nFor each candidate, return these fields:\n- kanji: 1-2 Japanese Kanji characters (no spaces)\n- reading_hiragana: reading in hiragana\n- reading_romaji: reading in lowercase romaji\n- reason: why this Kanji name was chosen, written in "@
        + reason_language
        + "\nReturn only JSON (no markdown, no explanation) in this exact shape:\n{\"candidates\":[{\"kanji\":\"\",\"reading_hiragana\":\"\",\"reading_romaji\":\"\",\"reason\":\"\"}]}"@
}

/// Writes the instruction that asks for name candidates.
pub fn build_kanji_candidates_prompt(input: &GenerateKanjiCandidatesInput) -> (r: String)
    ensures
        r@ == kanji_prompt(input.real_name@, input.reason_language@, input.count as nat),
{
    let mut digits: Vec<char> = Vec::new();
    push_decimal_digits(input.count as u64, &mut digits);
    assert(digits@ =~= decimal_digits(input.count as nat));
    let mut out: String = "Generate ".to_owned();
    out.append(text_of(&digits).as_str());
    out.append(" unique Japanese name candidates for a hanko seal.\nInput name: \"");
    out.append(input.real_name.as_str());
    out.append(
        "\"\nFor each candidate, return these fields:\n- kanji: 1-2 Japanese Kanji characters (no spaces)\n- reading_hiragana: reading in hiragana\n- reading_romaji: reading in lowercase romaji\n- reason: why this Kanji name was chosen, written in ",
    );
    out.append(input.reason_language.as_str());
    out.append(
        "\nReturn only JSON (no markdown, no explanation) in this exact shape:\n{\"candidates\":[{\"kanji\":\"\",\"reading_hiragana\":\"\",\"reading_romaji\":\"\",\"reason\":\"\"}]}",
    );
    out
}

/// The index of the last of the first `count` fonts whose key is `key`.
pub open spec fn font_named(fonts: Seq<FontOption>, key: Seq<char>, count: int) -> Option<int>
    decreases count,
{
    if count <= 0 {
        None
    } else if fonts[count - 1].key@ == key {
        Some(count - 1)
    } else {
        font_named(fonts, key, count - 1)
    }
}

/// The index of the last of the first `count` materials whose key is `key`.
pub open spec fn material_named(materials: Seq<MaterialOption>, key: Seq<char>, count: int) -> Option<
    int,
>
    decreases count,
{
    if count <= 0 {
        None
    } else if materials[count - 1].key@ == key {
        Some(count - 1)
    } else {
        material_named(materials, key, count - 1)
    }
}

/// The index of the last of the first `count` countries whose code is `code`.
pub open spec fn country_named(countries: Seq<CountryOption>, code: Seq<char>, count: int) -> Option<
    int,
>
    decreases count,
{
    if count <= 0 {
        None
    } else if countries[count - 1].code@ == code {
        Some(count - 1)
    } else {
        country_named(countries, code, count - 1)
    }
}

fn find_font(fonts: &Vec<FontOption>, key: &str) -> (r: Option<usize>)
    ensures
        match r {
            Some(i) => i < fonts@.len() && font_named(fonts@, key@, fonts@.len() as int) == Some(
                i as int,
            ),
            None => font_named(fonts@, key@, fonts@.len() as int) is None,
        },
{
    let mut i: usize = fonts.len();
    while i > 0
        invariant
            i <= fonts@.len(),
            font_named(fonts@, key@, fonts@.len() as int) == font_named(fonts@, key@, i as int),
        decreases i,
    {
        if same_text(fonts[i - 1].key.as_str(), key) {
            return Some(i - 1);
        }
        i -= 1;
    }
    None
}

fn find_material_option(materials: &Vec<MaterialOption>, key: &str) -> (r: Option<usize>)
    ensures
        match r {
            Some(i) => i < materials@.len() && material_named(
                materials@,
                key@,
                materials@.len() as int,
            ) == Some(i as int),
            None => material_named(materials@, key@, materials@.len() as int) is None,
        },
{
    let mut i: usize = materials.len();
    while i > 0
        invariant
            i <= materials@.len(),
            material_named(materials@, key@, materials@.len() as int) == material_named(
                materials@,
                key@,
                i as int,
            ),
        decreases i,
    {
        if same_text(materials[i - 1].key.as_str(), key) {
            return Some(i - 1);
        }
        i -= 1;
    }
    None
}

fn find_country(countries: &Vec<CountryOption>, code: &str) -> (r: Option<usize>)
    ensures
        match r {
            Some(i) => i < countries@.len() && country_named(
                countries@,
                code@,
                countries@.len() as int,
            ) == Some(i as int),
            None => country_named(countries@, code@, countries@.len() as int) is None,
        },
{
    let mut i: usize = countries.len();
    while i > 0
        invariant
            i <= countries@.len(),
            country_named(countries@, code@, countries@.len() as int) == country_named(
                countries@,
                code@,
                i as int,
            ),
        decreases i,
    {
        if same_text(countries[i - 1].code.as_str(), code) {
            return Some(i - 1);
        }
        i -= 1;
    }
    None
}

/// Whether the form says that the terms are agreed to: `on`, `1`, or `true`
/// in any case.
pub open spec fn agrees(terms_value: Seq<char>) -> bool {
    terms_value == "on"@ || terms_value == "1"@ || ascii_lowercase(terms_value) == "true"@
}

/// The indices of the font, the material and the country that the form
/// chooses, as far as the catalog has them. Of entries with the same key the
/// last counts.
pub open spec fn purchase_choice(form: Seq<(String, String)>, catalog: CatalogData) -> (
    Option<int>,
    Option<int>,
    Option<int>,
) {
    (
        font_named(catalog.fonts@, field_text(form, "font"@), catalog.fonts@.len() as int),
        material_named(
            catalog.materials@,
            field_text(form, "material"@),
            catalog.materials@.len() as int,
        ),
        country_named(
            catalog.countries@,
            field_text(form, "country"@),
            catalog.countries@.len() as int,
        ),
    )
}

/// What is wrong with a purchase form, if anything: the message for the
/// buyer. The seal is checked first, then what is chosen from the catalog,
/// then the address, the e-mail address and the terms; last, whether the
/// total can be written down.
pub open spec fn purchase_problem(form: Seq<(String, String)>, catalog: CatalogData) -> Option<
    Seq<char>,
> {
    let choice = purchase_choice(form, catalog);
    let shape = field_text(form, "shape"@);
    if seal_lines_problem(field_text(form, "seal_line1"@), field_text(form, "seal_line2"@))
        is Some {
        seal_lines_problem(field_text(form, "seal_line1"@), field_text(form, "seal_line2"@))
    } else if choice.0 is None {
        Some("フォントを選択してください。"@)
    } else if shape_label_text(shape) is None {
        Some("印鑑の形状を選択してください。"@)
    } else if choice.1 is None {
        Some("材質を選択してください。"@)
    } else if catalog.materials@[choice.1.unwrap()].shape@ != shape {
        Some(shape_label_text(shape).unwrap() + "に対応する材質を選択してください。"@)
    } else if choice.2 is None {
        Some("配送先の国を選択してください。"@)
    } else if field_text(form, "recipient_name"@).len() == 0 {
        Some("購入者名を入力してください。"@)
    } else if field_text(form, "phone"@).len() == 0 {
        Some("電話番号を入力してください。"@)
    } else if field_text(form, "postal_code"@).len() == 0 {
        Some("郵便番号を入力してください。"@)
    } else if field_text(form, "state"@).len() == 0 {
        Some("都道府県 / 州を入力してください。"@)
    } else if field_text(form, "city"@).len() == 0 {
        Some("市区町村 / City を入力してください。"@)
    } else if field_text(form, "address_line1"@).len() == 0 {
        Some("住所1を入力してください。"@)
    } else if field_text(form, "email"@).len() == 0 {
        Some("購入確認用のメールアドレスを入力してください。"@)
    } else if !agrees(field_text(form, "terms_agreed"@)) {
        Some("利用規約への同意が必要です。"@)
    } else if catalog.materials@[choice.1.unwrap()].price + catalog.countries@[choice.2.unwrap()].shipping
        > i64::MAX || catalog.materials@[choice.1.unwrap()].price
        + catalog.countries@[choice.2.unwrap()].shipping < i64::MIN {
        Some("注文の作成に失敗しました。時間をおいて再度お試しください。"@)
    } else {
        None
    }
}

/// A purchase that passed the checks of the storefront: the request to send
/// to the order API, and what the buyer is shown.
#[derive(Debug)]
pub struct Purchase {
    pub request: CreateOrderInput,
    pub font_label: String,
    pub shape_label: String,
    pub material_label: String,
    pub country_label: String,
    pub subtotal: i64,
    pub shipping: i64,
    pub total: i64,
}

/// The request that a purchase form makes of the order API.
pub open spec fn purchase_request(
    form: Seq<(String, String)>,
    locale: Seq<char>,
    idempotency_key: Seq<char>,
) -> CreateOrderView {
    CreateOrderView {
        channel: "web"@,
        locale: lowercase(trimmed(locale)),
        idempotency_key,
        terms_agreed: true,
        seal: SealView {
            line1: field_text(form, "seal_line1"@),
            line2: field_text(form, "seal_line2"@),
            shape: field_text(form, "shape"@),
            font_key: field_text(form, "font"@),
        },
        material_key: field_text(form, "material"@),
        shipping: ShippingView {
            country_code: field_text(form, "country"@),
            recipient_name: field_text(form, "recipient_name"@),
            phone: field_text(form, "phone"@),
            postal_code: field_text(form, "postal_code"@),
            state: field_text(form, "state"@),
            city: field_text(form, "city"@),
            address_line1: field_text(form, "address_line1"@),
            address_line2: field_text(form, "address_line2"@),
        },
        contact: ContactView {
            email: field_text(form, "email"@),
            preferred_locale: lowercase(trimmed(locale)),
        },
    }
}

/// Checks a purchase form against the catalog and makes of it the request
/// for the order API. `locale` is the locale of the storefront, and
/// `idempotency_key` the key drawn for this purchase. The error is the
/// message for the buyer.
pub fn plan_purchase(form: &NamedTexts, catalog: &CatalogData, locale: &str, idempotency_key: &str) -> (r:
    Result<Purchase, String>)
    ensures
        match r {
            Ok(purchase) => {
                let choice = purchase_choice(form@, *catalog);
                &&& purchase_problem(form@, *catalog) is None
                &&& purchase.request@ == purchase_request(form@, locale@, idempotency_key@)
                &&& purchase.font_label@ == catalog.fonts@[choice.0.unwrap()].label@
                &&& Some(purchase.shape_label@) == shape_label_text(field_text(form@, "shape"@))
                &&& purchase.material_label@ == catalog.materials@[choice.1.unwrap()].label@
                &&& purchase.country_label@ == catalog.countries@[choice.2.unwrap()].label@
                &&& purchase.subtotal == catalog.materials@[choice.1.unwrap()].price
                &&& purchase.shipping == catalog.countries@[choice.2.unwrap()].shipping
                &&& purchase.total == purchase.subtotal + purchase.shipping
            },
            Err(message) => purchase_problem(form@, *catalog) == Some(message@),
        },
{
    let seal_line1: String = form_value(form, "seal_line1");
    let seal_line2: String = form_value(form, "seal_line2");
    let font_key: String = form_value(form, "font");
    let shape_key: String = form_value(form, "shape");
    let material_key: String = form_value(form, "material");
    let recipient_name: String = form_value(form, "recipient_name");
    let phone: String = form_value(form, "phone");
    let country_code: String = form_value(form, "country");
    let postal_code: String = form_value(form, "postal_code");
    let state_name: String = form_value(form, "state");
    let city: String = form_value(form, "city");
    let address_line1: String = form_value(form, "address_line1");
    let address_line2: String = form_value(form, "address_line2");
    let email: String = form_value(form, "email");
    let terms_value: String = form_value(form, "terms_agreed");
    let terms_agreed: bool = same_text(terms_value.as_str(), "on") || same_text(
        terms_value.as_str(),
        "1",
    ) || same_text(text_of(&to_ascii_lowercase(&chars_of(terms_value.as_str()))).as_str(), "true");

    match validate_seal_lines(seal_line1.as_str(), seal_line2.as_str()) {
        Err(message) => {
            return Err(message);
        },
        Ok(()) => {},
    }
    let font: usize = match find_font(&catalog.fonts, font_key.as_str()) {
        Some(i) => i,
        None => {
            return Err("フォントを選択してください。".to_owned());
        },
    };
    let selected_shape_label: &'static str = match shape_label(shape_key.as_str()) {
        Some(label) => label,
        None => {
            return Err("印鑑の形状を選択してください。".to_owned());
        },
    };
    let material: usize = match find_material_option(&catalog.materials, material_key.as_str()) {
        Some(i) => i,
        None => {
            return Err("材質を選択してください。".to_owned());
        },
    };
    if !same_text(catalog.materials[material].shape.as_str(), shape_key.as_str()) {
        let mut message: String = selected_shape_label.to_owned();
        message.append("に対応する材質を選択してください。");
        return Err(message);
    }
    let country: usize = match find_country(&catalog.countries, country_code.as_str()) {
        Some(i) => i,
        None => {
            return Err("配送先の国を選択してください。".to_owned());
        },
    };
    if recipient_name.as_str().is_empty() {
        return Err("購入者名を入力してください。".to_owned());
    }
    if phone.as_str().is_empty() {
        return Err("電話番号を入力してください。".to_owned());
    }
    if postal_code.as_str().is_empty() {
        return Err("郵便番号を入力してください。".to_owned());
    }
    if state_name.as_str().is_empty() {
        return Err("都道府県 / 州を入力してください。".to_owned());
    }
    if city.as_str().is_empty() {
        return Err("市区町村 / City を入力してください。".to_owned());
    }
    if address_line1.as_str().is_empty() {
        return Err("住所1を入力してください。".to_owned());
    }
    if email.as_str().is_empty() {
        return Err("購入確認用のメールアドレスを入力してください。".to_owned());
    }
    if !terms_agreed {
        return Err("利用規約への同意が必要です。".to_owned());
    }
    let subtotal: i64 = catalog.materials[material].price;
    let shipping: i64 = catalog.countries[country].shipping;
    let sum: i128 = subtotal as i128 + shipping as i128;
    if sum > i64::MAX as i128 || sum < i64::MIN as i128 {
        return Err("注文の作成に失敗しました。時間をおいて再度お試しください。".to_owned());
    }
    let order_locale: String = trim_lower(locale);
    Ok(
        Purchase {
            request: CreateOrderInput {
                channel: "web".to_owned(),
                locale: order_locale.clone(),
                idempotency_key: idempotency_key.to_owned(),
                terms_agreed: true,
                seal: SealInput {
                    line1: seal_line1,
                    line2: seal_line2,
                    shape: shape_key,
                    font_key,
                },
                material_key,
                shipping: ShippingInput {
                    country_code,
                    recipient_name,
                    phone,
                    postal_code,
                    state: state_name,
                    city,
                    address_line1,
                    address_line2,
                },
                contact: ContactInput { email, preferred_locale: order_locale },
            },
            font_label: catalog.fonts[font].label.clone(),
            shape_label: selected_shape_label.to_owned(),
            material_label: catalog.materials[material].label.clone(),
            country_label: catalog.countries[country].label.clone(),
            subtotal,
            shipping,
            total: sum as i64,
        },
    )
}

/// Draws the idempotency key of a purchase: `web_`, then a version-4 UUID
/// in thirty-two hexadecimal digits. Every key that is drawn has the form
/// that the order API asks of an idempotency key.
pub fn generate_idempotency_key() -> (r: String)
    ensures
        is_idempotency_key(r@),
        crate::text::begins_with(r@, "web_"@),
        r@.len() == 36,
{
    let random: Vec<u8> = random_uuid_bytes();
    let digits: String = hex_encode(random.as_slice());
    let mut key: String = "web_".to_owned();
    key.append(digits.as_str());
    proof {
        reveal_strlit("web_");
        assert("web_"@.len() == 4);
        assert("web_"@[0] == 'w' && "web_"@[1] == 'e' && "web_"@[2] == 'b' && "web_"@[3] == '_');
        assert(key@.subrange(0, 4) =~= "web_"@);
        assert forall|i: int| 0 <= i < key@.len() implies is_key_char(#[trigger] key@[i]) by {
            if i >= 4 {
                let k = i - 4;
                lemma_hex_char(random@[k / 2] as int / 16);
                lemma_hex_char(random@[k / 2] as int % 16);
                assert(key@[i] == digits@[k]);
            }
        }
    }
    key
}

} // verus!
