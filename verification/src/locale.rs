use vstd::prelude::*;
use crate::text::{
    chars_of, find_char, first_index, is_blank, lowercase, same_text, string_of, trim,
    trim_lower, trimmed,
};

verus! {

/// A text in several locales: pairs of a locale and the text in it.
pub type LocalizedText = Vec<(String, String)>;

/// What the pairs hold.
pub open spec fn entries_view(entries: Seq<(String, String)>) -> Seq<(Seq<char>, Seq<char>)> {
    entries.map_values(|e: (String, String)| (e.0@, e.1@))
}

/// Whether no two pairs name the same locale: what a text keyed by locale
/// holds by its making.
pub open spec fn distinct_locale_names(entries: Seq<(Seq<char>, Seq<char>)>) -> bool {
    forall|i: int, j: int| 0 <= i < j < entries.len() ==> entries[i].0 != entries[j].0
}

/// The text of the first pair at or after `from` whose locale, trimmed and
/// in lower case, is `target`, and whose text is not blank; the text trimmed.
pub open spec fn first_match(
    entries: Seq<(Seq<char>, Seq<char>)>,
    target: Seq<char>,
    from: int,
) -> Option<Seq<char>>
    decreases entries.len() - from,
{
    if from < 0 || from >= entries.len() {
        None
    } else if lowercase(trimmed(entries[from].0)) == target && !is_blank(entries[from].1) {
        Some(trimmed(entries[from].1))
    } else {
        first_match(entries, target, from + 1)
    }
}

/// The text for the locale `target`: that of the locale itself, else that of
/// its language, which is what stands before the first hyphen.
pub open spec fn looked_up(entries: Seq<(Seq<char>, Seq<char>)>, target: Seq<char>) -> Option<
    Seq<char>,
> {
    let t = lowercase(trimmed(target));
    if t.len() == 0 {
        None
    } else if first_match(entries, t, 0) is Some {
        first_match(entries, t, 0)
    } else if first_index(t, '-') < t.len() {
        first_match(entries, t.subrange(0, first_index(t, '-')), 0)
    } else {
        None
    }
}

/// Whether `a` comes before `b` in the order of strings: character by
/// character, a proper prefix first.
pub open spec fn text_less(a: Seq<char>, b: Seq<char>) -> bool
    decreases a.len(),
{
    if b.len() == 0 {
        false
    } else if a.len() == 0 {
        true
    } else if a[0] != b[0] {
        a[0] < b[0]
    } else {
        text_less(a.drop_first(), b.drop_first())
    }
}

/// Among the first `count` pairs, the index of the one with the least locale
/// whose text is not blank; of pairs with the same locale, the first.
pub open spec fn least_locale(entries: Seq<(Seq<char>, Seq<char>)>, count: int) -> Option<int>
    decreases count,
{
    if count <= 0 {
        None
    } else {
        let before = least_locale(entries, count - 1);
        let i = count - 1;
        if is_blank(entries[i].1) {
            before
        } else if before is Some && !text_less(entries[i].0, entries[before.unwrap()].0) {
            before
        } else {
            Some(i)
        }
    }
}

/// The text to show for `requested_locale`: the text for that locale, else
/// for `default_locale`, else for Japanese, else the text of the least
/// locale that has one, else nothing.
pub open spec fn localized(
    entries: Seq<(Seq<char>, Seq<char>)>,
    requested_locale: Seq<char>,
    default_locale: Seq<char>,
) -> Seq<char> {
    if looked_up(entries, requested_locale) is Some {
        looked_up(entries, requested_locale).unwrap()
    } else if looked_up(entries, default_locale) is Some {
        looked_up(entries, default_locale).unwrap()
    } else if looked_up(entries, "ja"@) is Some {
        looked_up(entries, "ja"@).unwrap()
    } else {
        match least_locale(entries, entries.len() as int) {
            Some(i) => trimmed(entries[i].1),
            None => Seq::<char>::empty(),
        }
    }
}

fn find_match(values: &LocalizedText, target: &str) -> (r: Option<String>)
    ensures
        match r {
            Some(text) => first_match(entries_view(values@), target@, 0) == Some(text@),
            None => first_match(entries_view(values@), target@, 0) is None,
        },
{
    let mut i: usize = 0;
    while i < values.len()
        invariant
            i <= values@.len(),
            first_match(entries_view(values@), target@, 0) == first_match(
                entries_view(values@),
                target@,
                i as int,
            ),
        decreases values@.len() - i,
    {
        assert(entries_view(values@)[i as int] == (values@[i as int].0@, values@[i as int].1@));
        let key: String = trim_lower(values[i].0.as_str());
        if same_text(key.as_str(), target) {
            let text = trim(values[i].1.as_str());
            if !text.is_empty() {
                return Some(text.to_owned());
            }
        }
        i += 1;
    }
    None
}

/// The text for the locale `target`, if `values` has one that is not blank.
pub fn lookup_locale(values: &LocalizedText, target: &str) -> (r: Option<String>)
    ensures
        match r {
            Some(text) => looked_up(entries_view(values@), target@) == Some(text@),
            None => looked_up(entries_view(values@), target@) is None,
        },
{
    let wanted: String = trim_lower(target);
    if wanted.as_str().is_empty() {
        return None;
    }
    match find_match(values, wanted.as_str()) {
        Some(text) => {
            return Some(text);
        },
        None => {},
    }
    let v: Vec<char> = chars_of(wanted.as_str());
    assert(v@.subrange(0, v@.len() as int) =~= v@);
    let cut: usize = find_char(&v, 0, '-');
    if cut < v.len() {
        let language: String = string_of(&v, 0, cut);
        return find_match(values, language.as_str());
    }
    None
}

/// Whether `a` comes before `b` in the order of strings.
pub fn less_than(a: &Vec<char>, b: &Vec<char>) -> (r: bool)
    ensures
        r == text_less(a@, b@),
{
    let mut i: usize = 0;
    assert(a@.subrange(0, a@.len() as int) =~= a@);
    assert(b@.subrange(0, b@.len() as int) =~= b@);
    loop
        invariant
            i <= a@.len(),
            i <= b@.len(),
            text_less(a@, b@) == text_less(
                a@.subrange(i as int, a@.len() as int),
                b@.subrange(i as int, b@.len() as int),
            ),
        decreases a@.len() - i,
    {
        if i >= b.len() {
            return false;
        }
        if i >= a.len() {
            return true;
        }
        if a[i] != b[i] {
            return a[i] < b[i];
        }
        assert(a@.subrange(i as int, a@.len() as int).drop_first() =~= a@.subrange(
            i as int + 1,
            a@.len() as int,
        ));
        assert(b@.subrange(i as int, b@.len() as int).drop_first() =~= b@.subrange(
            i as int + 1,
            b@.len() as int,
        ));
        i += 1;
    }
}

/// The text to show for `requested_locale`.
pub fn resolve_localized(values: &LocalizedText, requested_locale: &str, default_locale: &str) -> (r:
    String)
    ensures
        r@ == localized(entries_view(values@), requested_locale@, default_locale@),
{
    match lookup_locale(values, requested_locale) {
        Some(text) => {
            return text;
        },
        None => {},
    }
    match lookup_locale(values, default_locale) {
        Some(text) => {
            return text;
        },
        None => {},
    }
    match lookup_locale(values, "ja") {
        Some(text) => {
            return text;
        },
        None => {},
    }
    let mut best: Option<usize> = None;
    let mut best_key: Vec<char> = Vec::new();
    let mut i: usize = 0;
    while i < values.len()
        invariant
            i <= values@.len(),
            match best {
                Some(b) => least_locale(entries_view(values@), i as int) == Some(b as int) && b
                    < i && best_key@ == values@[b as int].0@,
                None => least_locale(entries_view(values@), i as int) is None,
            },
        decreases values@.len() - i,
    {
        assert(entries_view(values@)[i as int] == (values@[i as int].0@, values@[i as int].1@));
        if !trim(values[i].1.as_str()).is_empty() {
            let key: Vec<char> = chars_of(values[i].0.as_str());
            let better: bool = match best {
                Some(b) => {
                    assert(entries_view(values@)[b as int] == (
                        values@[b as int].0@,
                        values@[b as int].1@,
                    ));
                    less_than(&key, &best_key)
                },
                None => true,
            };
            if better {
                best = Some(i);
                best_key = key;
            }
        }
        i += 1;
    }
    match best {
        Some(b) => {
            assert(entries_view(values@)[b as int] == (values@[b as int].0@, values@[b as int].1@));
            trim(values[b].1.as_str()).to_owned()
        },
        None => String::new(),
    }
}

/// The text to show for `locale`; the same choice as `resolve_localized` makes.
pub fn resolve_localized_text(values: &LocalizedText, locale: &str, default_locale: &str) -> (r:
    String)
    ensures
        r@ == localized(entries_view(values@), locale@, default_locale@),
{
    resolve_localized(values, locale, default_locale)
}

/// The order of strings is transitive.
pub proof fn lemma_text_less_is_transitive(a: Seq<char>, b: Seq<char>, c: Seq<char>)
    requires
        text_less(a, b),
        text_less(b, c),
    ensures
        text_less(a, c),
    decreases a.len(),
{
    if a.len() > 0 && b.len() > 0 && c.len() > 0 && a[0] == b[0] && b[0] == c[0] {
        lemma_text_less_is_transitive(a.drop_first(), b.drop_first(), c.drop_first());
    }
}

/// Of two strings at most one comes before the other.
pub proof fn lemma_text_less_is_asymmetric(a: Seq<char>, b: Seq<char>)
    requires
        text_less(a, b),
    ensures
        !text_less(b, a),
    decreases a.len(),
{
    if a.len() > 0 && b.len() > 0 && a[0] == b[0] {
        lemma_text_less_is_asymmetric(a.drop_first(), b.drop_first());
    }
}

/// Where `a` comes before `c`, any `b` comes after `a` or before `c`.
pub proof fn lemma_text_less_splits(a: Seq<char>, b: Seq<char>, c: Seq<char>)
    requires
        text_less(a, c),
    ensures
        text_less(a, b) || text_less(b, c),
    decreases a.len(),
{
    if a.len() > 0 && b.len() > 0 && c.len() > 0 && a[0] == b[0] && b[0] == c[0] {
        lemma_text_less_splits(a.drop_first(), b.drop_first(), c.drop_first());
    }
}

} // verus!
