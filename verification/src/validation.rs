use vstd::prelude::*;
use vstd::string::StringExecFns;
use crate::number::{decimal_digits, push_decimal_digits};
use crate::text::{
    chars_of, find_char, first_index, has_space, is_blank, pieces_view, split_chars, split_on,
    text_of, trim, trimmed,
};

verus! {

/// Whether `c` is one of `a` to `z`.
pub open spec fn is_lower(c: char) -> bool {
    'a' <= c && c <= 'z'
}

/// Whether `c` is one of `A` to `Z`.
pub open spec fn is_upper(c: char) -> bool {
    'A' <= c && c <= 'Z'
}

/// Whether `c` is one of `0` to `9`.
pub open spec fn is_digit(c: char) -> bool {
    '0' <= c && c <= '9'
}

/// Whether `c` may stand in an idempotency key.
pub open spec fn is_key_char(c: char) -> bool {
    is_lower(c) || is_upper(c) || is_digit(c) || c == '_' || c == '-'
}

/// An idempotency key: 8 to 128 characters out of `A-Z a-z 0-9 _ -`.
pub open spec fn is_idempotency_key(s: Seq<char>) -> bool {
    &&& 8 <= s.len() <= 128
    &&& forall|i: int| 0 <= i < s.len() ==> is_key_char(#[trigger] s[i])
}

/// The first subtag of a locale: two or three lower-case letters.
pub open spec fn is_primary_subtag(s: Seq<char>) -> bool {
    &&& 2 <= s.len() <= 3
    &&& forall|i: int| 0 <= i < s.len() ==> is_lower(#[trigger] s[i])
}

/// A later subtag of a locale: two to eight lower-case letters or digits.
pub open spec fn is_later_subtag(s: Seq<char>) -> bool {
    &&& 2 <= s.len() <= 8
    &&& forall|i: int| 0 <= i < s.len() ==> (is_lower(#[trigger] s[i]) || is_digit(s[i]))
}

/// A lower-case locale tag: a primary subtag, then any number of later
/// subtags, each after a hyphen.
pub open spec fn is_locale_tag(s: Seq<char>) -> bool {
    let parts = split_on(s, '-');
    &&& is_primary_subtag(parts[0])
    &&& forall|i: int| 1 <= i < parts.len() ==> is_later_subtag(#[trigger] parts[i])
}

/// An e-mail address as far as it is checked: exactly one `@` with something
/// on both sides, and on the right a name with a dot inside it.
pub open spec fn is_email(s: Seq<char>) -> bool {
    let parts = split_on(trimmed(s), '@');
    &&& parts.len() == 2
    &&& parts[0].len() > 0
    &&& parts[1].len() > 0
    &&& parts[1][0] != '.'
    &&& parts[1].last() != '.'
    &&& first_index(parts[1], '.') < parts[1].len()
}

fn lower_char(c: char) -> (r: bool)
    ensures
        r == is_lower(c),
{
    'a' <= c && c <= 'z'
}

fn digit_char(c: char) -> (r: bool)
    ensures
        r == is_digit(c),
{
    '0' <= c && c <= '9'
}

fn key_char(c: char) -> (r: bool)
    ensures
        r == is_key_char(c),
{
    lower_char(c) || ('A' <= c && c <= 'Z') || digit_char(c) || c == '_' || c == '-'
}

/// Whether `key` is an idempotency key.
pub fn is_valid_idempotency_key(key: &str) -> (r: bool)
    ensures
        r == is_idempotency_key(key@),
{
    let v: Vec<char> = chars_of(key);
    if v.len() < 8 || v.len() > 128 {
        return false;
    }
    let mut i: usize = 0;
    while i < v.len()
        invariant
            i <= v@.len(),
            v@ == key@,
            forall|j: int| 0 <= j < i ==> is_key_char(#[trigger] v@[j]),
        decreases v@.len() - i,
    {
        if !key_char(v[i]) {
            return false;
        }
        i += 1;
    }
    true
}

fn subtag_ok(part: &Vec<char>, first: bool) -> (r: bool)
    ensures
        r == if first {
            is_primary_subtag(part@)
        } else {
            is_later_subtag(part@)
        },
{
    let n: usize = part.len();
    if n < 2 || (first && n > 3) || n > 8 {
        return false;
    }
    let mut i: usize = 0;
    while i < n
        invariant
            i <= n,
            n == part@.len(),
            forall|j: int|
                0 <= j < i ==> (is_lower(#[trigger] part@[j]) || (!first && is_digit(part@[j]))),
        decreases n - i,
    {
        if !(lower_char(part[i]) || (!first && digit_char(part[i]))) {
            return false;
        }
        i += 1;
    }
    true
}

/// Whether `locale` is a lower-case locale tag.
pub fn is_valid_locale_tag(locale: &str) -> (r: bool)
    ensures
        r == is_locale_tag(locale@),
{
    let v: Vec<char> = chars_of(locale);
    let parts: Vec<Vec<char>> = split_chars(&v, '-');
    proof {
        crate::text::lemma_split_on_is_not_empty(locale@, '-');
    }
    let n: usize = parts.len();
    assert(pieces_view(parts@).len() == n);
    let mut i: usize = 0;
    while i < n
        invariant
            i <= n,
            n == parts@.len(),
            n >= 1,
            pieces_view(parts@) == split_on(locale@, '-'),
            i >= 1 ==> is_primary_subtag(pieces_view(parts@)[0]),
            forall|j: int| 1 <= j < i ==> is_later_subtag(#[trigger] pieces_view(parts@)[j]),
        decreases n - i,
    {
        assert(pieces_view(parts@)[i as int] == parts@[i as int]@);
        if !subtag_ok(&parts[i], i == 0) {
            return false;
        }
        i += 1;
    }
    true
}

/// Whether `email` has the shape of an e-mail address.
pub fn is_valid_email(email: &str) -> (r: bool)
    ensures
        r == is_email(email@),
{
    let v: Vec<char> = chars_of(trim(email));
    let parts: Vec<Vec<char>> = split_chars(&v, '@');
    assert(pieces_view(parts@).len() == parts@.len());
    if parts.len() != 2 {
        return false;
    }
    assert(pieces_view(parts@)[0] == parts@[0]@);
    assert(pieces_view(parts@)[1] == parts@[1]@);
    let local: &Vec<char> = &parts[0];
    let domain: &Vec<char> = &parts[1];
    if local.len() == 0 || domain.len() == 0 {
        return false;
    }
    if domain[0] == '.' || domain[domain.len() - 1] == '.' {
        return false;
    }
    let dot: usize = find_char(domain, 0, '.');
    assert(domain@.subrange(0, domain@.len() as int) =~= domain@);
    dot < domain.len()
}

/// What is wrong with a line of seal text.
#[derive(Clone, Copy, Debug, PartialEq, Eq, Structural)]
pub enum SealLineProblem {
    /// The number of characters is outside the bounds.
    Length,
    /// A character is white space.
    Whitespace,
}

/// What is wrong with a line of seal text, if anything: the length is
/// looked at first.
pub open spec fn seal_line_problem(value: Seq<char>, min_len: int, max_len: int) -> Option<
    SealLineProblem,
> {
    if value.len() < min_len || value.len() > max_len {
        Some(SealLineProblem::Length)
    } else if has_space(value) {
        Some(SealLineProblem::Whitespace)
    } else {
        None
    }
}

/// Checks a line of seal text against bounds on its number of characters and
/// for white space.
pub fn check_seal_line(value: &str, min_len: usize, max_len: usize) -> (r: Option<SealLineProblem>)
    ensures
        r == seal_line_problem(value@, min_len as int, max_len as int),
{
    let length: usize = value.unicode_len();
    if length < min_len || length > max_len {
        return Some(SealLineProblem::Length);
    }
    if crate::text::contains_whitespace(value) {
        return Some(SealLineProblem::Whitespace);
    }
    None
}

/// The message for a line of seal text that is refused.
pub open spec fn seal_line_message(
    field_name: Seq<char>,
    problem: SealLineProblem,
    min_len: nat,
    max_len: nat,
) -> Seq<char> {
    match problem {
        SealLineProblem::Length => field_name + " must be "@ + decimal_digits(min_len) + "-"@
            + decimal_digits(max_len) + " characters"@,
        SealLineProblem::Whitespace => field_name + " must not contain whitespace"@,
    }
}

fn append_number(out: &mut String, n: usize)
    ensures
        final(out)@ == old(out)@ + decimal_digits(n as nat),
{
    let mut digits: Vec<char> = Vec::new();
    push_decimal_digits(n as u64, &mut digits);
    assert(digits@ =~= decimal_digits(n as nat));
    out.append(text_of(&digits).as_str());
}

/// Checks a line of seal text; the error is the message for the field `field_name`.
pub fn validate_seal_line(field_name: &str, value: &str, min_len: usize, max_len: usize) -> (r:
    Result<(), String>)
    ensures
        r is Ok <==> seal_line_problem(value@, min_len as int, max_len as int) is None,
        r matches Err(message) ==> message@ == seal_line_message(
            field_name@,
            seal_line_problem(value@, min_len as int, max_len as int).unwrap(),
            min_len as nat,
            max_len as nat,
        ),
{
    match check_seal_line(value, min_len, max_len) {
        None => Ok(()),
        Some(SealLineProblem::Length) => {
            let mut message: String = field_name.to_owned();
            message.append(" must be ");
            append_number(&mut message, min_len);
            message.append("-");
            append_number(&mut message, max_len);
            message.append(" characters");
            Err(message)
        },
        Some(SealLineProblem::Whitespace) => {
            let mut message: String = field_name.to_owned();
            message.append(" must not contain whitespace");
            Err(message)
        },
    }
}

/// Refuses a blank value; the error is the message for the field `field_name`.
pub fn require_non_empty(field_name: &str, raw: &str) -> (r: Result<(), String>)
    ensures
        r is Ok <==> !is_blank(raw@),
        r matches Err(message) ==> message@ == field_name@ + " is required"@,
{
    if trim(raw).is_empty() {
        let mut message: String = field_name.to_owned();
        message.append(" is required");
        return Err(message);
    }
    Ok(())
}

} // verus!
