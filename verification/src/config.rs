use vstd::prelude::*;
use crate::text::{is_blank, lowercase, strings_view, trim, trim_lower, trimmed};

verus! {

/// The locale that is used where none is configured.
pub const DEFAULT_LOCALE: &'static str = "ja";

/// The locales that the storefront serves.
#[derive(Debug)]
pub struct PublicConfig {
    pub supported_locales: Vec<String>,
    pub default_locale: String,
}

/// What a configuration holds.
pub struct PublicConfigView {
    pub supported_locales: Seq<Seq<char>>,
    pub default_locale: Seq<char>,
}

impl View for PublicConfig {
    type V = PublicConfigView;

    open spec fn view(&self) -> PublicConfigView {
        PublicConfigView {
            supported_locales: strings_view(self.supported_locales@),
            default_locale: self.default_locale@,
        }
    }
}

/// Whether `value` occurs among `values`.
pub fn contains(values: &Vec<String>, value: &str) -> (found: bool)
    ensures
        found == strings_view(values@).contains(value@),
{
    let needle: String = value.to_owned();
    let mut i: usize = 0;
    while i < values.len()
        invariant
            i <= values@.len(),
            needle@ == value@,
            forall|j: int| 0 <= j < i ==> strings_view(values@)[j] != value@,
        decreases values@.len() - i,
    {
        assert(strings_view(values@)[i as int] == values@[i as int]@);
        if values[i] == needle {
            return true;
        }
        i += 1;
    }
    false
}

/// The configuration that holds where none is stored: Japanese and English,
/// Japanese by default.
pub fn default_public_config() -> (r: PublicConfig)
    ensures
        r@ == (PublicConfigView { supported_locales: seq!["ja"@, "en"@], default_locale: "ja"@ }),
{
    let mut supported_locales: Vec<String> = Vec::new();
    supported_locales.push("ja".to_owned());
    supported_locales.push("en".to_owned());
    assert(strings_view(supported_locales@) =~= seq!["ja"@, "en"@]);
    PublicConfig { supported_locales, default_locale: DEFAULT_LOCALE.to_owned() }
}

/// The first `count` locales of `locales`, each trimmed and in lower case,
/// without the blank ones and without repetitions: the first occurrence stays.
pub open spec fn distinct_locales(locales: Seq<Seq<char>>, count: int) -> Seq<Seq<char>>
    decreases count,
{
    if count <= 0 {
        Seq::<Seq<char>>::empty()
    } else {
        let before = distinct_locales(locales, count - 1);
        let value = lowercase(trimmed(locales[count - 1]));
        if value.len() == 0 || before.contains(value) {
            before
        } else {
            before.push(value)
        }
    }
}

/// A configuration in its normal form: the supported locales distinct, or
/// Japanese and English where none is left; the default locale one of them,
/// Japanese where it is blank or not among them, and then put first where
/// it is missing.
pub open spec fn normalized_config(cfg: PublicConfigView) -> PublicConfigView {
    let distinct = distinct_locales(cfg.supported_locales, cfg.supported_locales.len() as int);
    let supported = if distinct.len() == 0 {
        seq!["ja"@, "en"@]
    } else {
        distinct
    };
    let wanted = lowercase(trimmed(cfg.default_locale));
    let default_locale = if wanted.len() == 0 || !supported.contains(wanted) {
        "ja"@
    } else {
        wanted
    };
    PublicConfigView {
        supported_locales: if supported.contains(default_locale) {
            supported
        } else {
            seq![default_locale] + supported
        },
        default_locale,
    }
}

/// Brings a configuration into its normal form.
pub fn normalize_public_config(cfg: PublicConfig) -> (r: PublicConfig)
    ensures
        r@ == normalized_config(cfg@),
{
    let mut normalized: Vec<String> = Vec::new();
    let n: usize = cfg.supported_locales.len();
    let mut i: usize = 0;
    assert(strings_view(normalized@) =~= Seq::<Seq<char>>::empty());
    while i < n
        invariant
            i <= n,
            n == cfg.supported_locales@.len(),
            strings_view(normalized@) == distinct_locales(cfg@.supported_locales, i as int),
        decreases n - i,
    {
        assert(cfg@.supported_locales[i as int] == cfg.supported_locales@[i as int]@);
        let value: String = trim_lower(cfg.supported_locales[i].as_str());
        if !value.as_str().is_empty() && !contains(&normalized, value.as_str()) {
            let ghost before = strings_view(normalized@);
            normalized.push(value);
            assert(strings_view(normalized@) =~= before.push(value@));
        }
        i += 1;
    }
    if normalized.len() == 0 {
        normalized.push("ja".to_owned());
        normalized.push("en".to_owned());
        assert(strings_view(normalized@) =~= seq!["ja"@, "en"@]);
    }
    let mut default_locale: String = trim_lower(cfg.default_locale.as_str());
    if default_locale.as_str().is_empty() || !contains(&normalized, default_locale.as_str()) {
        default_locale = DEFAULT_LOCALE.to_owned();
    }
    if !contains(&normalized, default_locale.as_str()) {
        let ghost before = strings_view(normalized@);
        normalized.insert(0, default_locale.clone());
        assert(strings_view(normalized@) =~= seq![default_locale@] + before);
    }
    PublicConfig { supported_locales: normalized, default_locale }
}

/// The first of `values` that is present and not blank, trimmed.
pub open spec fn first_present(values: Seq<Option<String>>, from: int) -> Option<Seq<char>>
    decreases values.len() - from,
{
    if from < 0 || from >= values.len() {
        None
    } else {
        match values[from] {
            Some(text) if !is_blank(text@) => Some(trimmed(text@)),
            _ => first_present(values, from + 1),
        }
    }
}

/// The first of `values` that is present and not blank, trimmed.
pub fn first_non_empty(values: &Vec<Option<String>>) -> (r: Option<String>)
    ensures
        match r {
            Some(text) => first_present(values@, 0) == Some(text@),
            None => first_present(values@, 0) is None,
        },
{
    let mut i: usize = 0;
    while i < values.len()
        invariant
            i <= values@.len(),
            first_present(values@, 0) == first_present(values@, i as int),
        decreases values@.len() - i,
    {
        match &values[i] {
            Some(text) => {
                let t = trim(text.as_str());
                if !t.is_empty() {
                    return Some(t.to_owned());
                }
            },
            None => {},
        }
        i += 1;
    }
    None
}

} // verus!
