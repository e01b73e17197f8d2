use vstd::prelude::*;

verus! {

/// Whether `c` carries the Unicode `White_Space` property.
pub open spec fn is_space(c: char) -> bool {
    let n = c as u32;
    (0x09 <= n && n <= 0x0D) || n == 0x20 || n == 0x85 || n == 0xA0 || n == 0x1680 || (0x2000 <= n
        && n <= 0x200A) || n == 0x2028 || n == 0x2029 || n == 0x202F || n == 0x205F || n == 0x3000
}

/// `s` without its leading white space.
pub open spec fn skip_spaces(s: Seq<char>) -> Seq<char>
    decreases s.len(),
{
    if s.len() > 0 && is_space(s[0]) {
        skip_spaces(s.drop_first())
    } else {
        s
    }
}

/// `s` without its trailing white space.
pub open spec fn drop_trailing_spaces(s: Seq<char>) -> Seq<char>
    decreases s.len(),
{
    if s.len() > 0 && is_space(s.last()) {
        drop_trailing_spaces(s.drop_last())
    } else {
        s
    }
}

/// `s` with white space removed at both ends.
pub open spec fn trimmed(s: Seq<char>) -> Seq<char> {
    drop_trailing_spaces(skip_spaces(s))
}

/// Whether `s` holds nothing but white space.
pub open spec fn is_blank(s: Seq<char>) -> bool {
    trimmed(s).len() == 0
}

/// The lower-case form that the standard library gives a string.
pub uninterp spec fn lowercase(s: Seq<char>) -> Seq<char>;

/// The upper-case form that the standard library gives a string.
pub uninterp spec fn uppercase(s: Seq<char>) -> Seq<char>;

/// `str::to_lowercase` of the standard library. Trusted: the result is the
/// lower-case form of the argument, which depends on nothing else.
#[verifier::external_body]
pub(crate) fn to_lowercase(s: &str) -> (r: String)
    ensures
        r@ == lowercase(s@),
{
    s.to_lowercase()
}

/// `str::to_uppercase` of the standard library. Trusted: the result is the
/// upper-case form of the argument, which depends on nothing else.
#[verifier::external_body]
pub(crate) fn to_uppercase(s: &str) -> (r: String)
    ensures
        r@ == uppercase(s@),
{
    s.to_uppercase()
}

/// `String::push` of the standard library. Trusted: it appends `ch` to the string.
pub assume_specification[ String::push ](s: &mut String, ch: char)
    ensures
        final(s)@ == old(s)@.push(ch),
;

/// Whether `c` is white space.
pub fn is_space_char(c: char) -> (r: bool)
    ensures
        r == is_space(c),
{
    let n: u32 = c as u32;
    (0x09 <= n && n <= 0x0D) || n == 0x20 || n == 0x85 || n == 0xA0 || n == 0x1680 || (0x2000 <= n
        && n <= 0x200A) || n == 0x2028 || n == 0x2029 || n == 0x202F || n == 0x205F || n == 0x3000
}

/// The characters of `s`, in order.
pub fn chars_of(s: &str) -> (v: Vec<char>)
    ensures
        v@ == s@,
{
    broadcast use vstd::string::group_string_axioms;

    let mut v: Vec<char> = Vec::new();
    for c in it: s.chars()
        invariant
            v@.len() == it.index(),
            it.seq() == s@,
            forall|j: int| 0 <= j < v@.len() ==> v@[j] == it.seq()[j],
    {
        v.push(c);
    }
    assert(v@ =~= s@);
    v
}

/// The string made of `chars[from..to]`.
pub(crate) fn string_of(chars: &Vec<char>, from: usize, to: usize) -> (s: String)
    requires
        from <= to <= chars@.len(),
    ensures
        s@ == chars@.subrange(from as int, to as int),
{
    let mut s: String = String::new();
    let mut i: usize = from;
    while i < to
        invariant
            from <= i <= to <= chars@.len(),
            s@ == chars@.subrange(from as int, i as int),
        decreases to - i,
    {
        s.push(chars[i]);
        assert(s@ =~= chars@.subrange(from as int, i as int + 1));
        i += 1;
    }
    s
}

/// Whether two strings hold the same characters.
pub fn same_text(a: &str, b: &str) -> (r: bool)
    ensures
        r == (a@ == b@),
{
    let x: String = a.to_owned();
    let y: String = b.to_owned();
    x == y
}

/// `s` trimmed, as an owned string.
pub fn trim_owned(s: &str) -> (r: String)
    ensures
        r@ == trimmed(s@),
{
    trim(s).to_owned()
}

/// `s` trimmed and lower-cased.
pub fn trim_lower(s: &str) -> (r: String)
    ensures
        r@ == lowercase(trimmed(s@)),
{
    to_lowercase(trim(s))
}

/// `s` trimmed and upper-cased.
pub fn trim_upper(s: &str) -> (r: String)
    ensures
        r@ == uppercase(trimmed(s@)),
{
    to_uppercase(trim(s))
}

/// Whether some character of `s` is white space.
pub fn contains_whitespace(value: &str) -> (r: bool)
    ensures
        r == has_space(value@),
{
    let v: Vec<char> = chars_of(value);
    let mut i: usize = 0;
    while i < v.len()
        invariant
            i <= v@.len(),
            v@ == value@,
            forall|j: int| 0 <= j < i ==> !is_space(#[trigger] v@[j]),
        decreases v@.len() - i,
    {
        if is_space_char(v[i]) {
            return true;
        }
        i += 1;
    }
    false
}

/// Whether some character of `s` is white space.
pub open spec fn has_space(s: Seq<char>) -> bool {
    exists|j: int| 0 <= j < s.len() && is_space(#[trigger] s[j])
}

/// The index of the first `c` in `s`, or the length of `s` where there is none.
pub open spec fn first_index(s: Seq<char>, c: char) -> int
    decreases s.len(),
{
    if s.len() == 0 || s[0] == c {
        0
    } else {
        1 + first_index(s.drop_first(), c)
    }
}

/// The pieces of `s` between occurrences of `c`, in order: one more than there
/// are occurrences.
pub open spec fn split_on(s: Seq<char>, c: char) -> Seq<Seq<char>>
    decreases s.len(),
{
    let i = first_index(s, c);
    if i < 0 || i >= s.len() {
        seq![s]
    } else {
        seq![s.subrange(0, i)] + split_on(s.subrange(i + 1, s.len() as int), c)
    }
}

/// What a list of character vectors holds, piece by piece.
pub open spec fn pieces_view(pieces: Seq<Vec<char>>) -> Seq<Seq<char>> {
    pieces.map_values(|p: Vec<char>| p@)
}

/// What a list of strings holds, string by string.
pub open spec fn strings_view(strings: Seq<String>) -> Seq<Seq<char>> {
    strings.map_values(|p: String| p@)
}

/// `first_index` is the place before which no `c` stands and at which one
/// does, or the end.
pub proof fn lemma_first_index(s: Seq<char>, c: char, k: int)
    requires
        0 <= k <= s.len(),
        forall|j: int| 0 <= j < k ==> s[j] != c,
        k < s.len() ==> s[k] == c,
    ensures
        first_index(s, c) == k,
    decreases s.len(),
{
    if k > 0 {
        lemma_first_index(s.drop_first(), c, k - 1);
    }
}

/// `first_index` lies within `s` or at its end, and no `c` stands before it.
pub proof fn lemma_first_index_bounds(s: Seq<char>, c: char)
    ensures
        0 <= first_index(s, c) <= s.len(),
        forall|j: int| 0 <= j < first_index(s, c) ==> s[j] != c,
        first_index(s, c) < s.len() ==> s[first_index(s, c)] == c,
    decreases s.len(),
{
    if s.len() > 0 && s[0] != c {
        let rest = s.drop_first();
        lemma_first_index_bounds(rest, c);
        assert forall|j: int| 0 <= j < first_index(s, c) implies s[j] != c by {
            if j > 0 {
                assert(rest[j - 1] == s[j]);
            }
        }
    }
}

/// The index of the first `c` in `v` at or after `from`, or the length of `v`.
pub(crate) fn find_char(v: &Vec<char>, from: usize, c: char) -> (i: usize)
    requires
        from <= v@.len(),
    ensures
        from <= i <= v@.len(),
        i - from == first_index(v@.subrange(from as int, v@.len() as int), c),
{
    let n: usize = v.len();
    let mut i: usize = from;
    while i < n && v[i] != c
        invariant
            from <= i <= n,
            n == v@.len(),
            forall|j: int| from <= j < i ==> v@[j] != c,
        decreases n - i,
    {
        i += 1;
    }
    proof {
        lemma_first_index(v@.subrange(from as int, n as int), c, i - from);
    }
    i
}

/// A copy of `v[from..to]`.
pub(crate) fn copy_range(v: &Vec<char>, from: usize, to: usize) -> (r: Vec<char>)
    requires
        from <= to <= v@.len(),
    ensures
        r@ == v@.subrange(from as int, to as int),
{
    let mut r: Vec<char> = Vec::new();
    let mut i: usize = from;
    while i < to
        invariant
            from <= i <= to <= v@.len(),
            r@ == v@.subrange(from as int, i as int),
        decreases to - i,
    {
        r.push(v[i]);
        assert(r@ =~= v@.subrange(from as int, i as int + 1));
        i += 1;
    }
    r
}

/// Where the trimmed part of `v` begins and ends.
pub fn trim_bounds(v: &Vec<char>) -> (r: (usize, usize))
    ensures
        r.0 <= r.1 <= v@.len(),
        v@.subrange(r.0 as int, r.1 as int) == trimmed(v@),
{
    let n: usize = v.len();
    let mut a: usize = 0;
    assert(v@.subrange(0, n as int) =~= v@);
    while a < n && is_space_char(v[a])
        invariant
            a <= n,
            n == v@.len(),
            skip_spaces(v@) == skip_spaces(v@.subrange(a as int, n as int)),
        decreases n - a,
    {
        assert(v@.subrange(a as int, n as int).drop_first() =~= v@.subrange(a as int + 1, n as int));
        a += 1;
    }
    assert(skip_spaces(v@) == v@.subrange(a as int, n as int));
    let mut b: usize = n;
    while b > a && is_space_char(v[b - 1])
        invariant
            a <= b <= n,
            n == v@.len(),
            trimmed(v@) == drop_trailing_spaces(v@.subrange(a as int, b as int)),
        decreases b,
    {
        assert(v@.subrange(a as int, b as int).drop_last() =~= v@.subrange(a as int, b as int - 1));
        b -= 1;
    }
    (a, b)
}

/// `v` with white space removed at both ends.
pub fn trim_chars(v: &Vec<char>) -> (r: Vec<char>)
    ensures
        r@ == trimmed(v@),
{
    let (a, b) = trim_bounds(v);
    copy_range(v, a, b)
}

/// `s` with white space removed at both ends.
pub fn trim(s: &str) -> (r: &str)
    ensures
        r@ == trimmed(s@),
{
    let v: Vec<char> = chars_of(s);
    let (a, b) = trim_bounds(&v);
    s.substring_char(a, b)
}

/// The pieces of `v` between occurrences of `sep`.
pub fn split_chars(v: &Vec<char>, sep: char) -> (r: Vec<Vec<char>>)
    ensures
        pieces_view(r@) == split_on(v@, sep),
{
    let n: usize = v.len();
    let mut out: Vec<Vec<char>> = Vec::new();
    let mut start: usize = 0;
    assert(v@.subrange(0, n as int) =~= v@);
    loop
        invariant
            start <= n,
            n == v@.len(),
            split_on(v@, sep) == pieces_view(out@) + split_on(
                v@.subrange(start as int, n as int),
                sep,
            ),
        decreases n - start,
    {
        let i: usize = find_char(v, start, sep);
        let piece: Vec<char> = copy_range(v, start, i);
        let ghost rest = v@.subrange(start as int, n as int);
        let ghost before = pieces_view(out@);
        out.push(piece);
        assert(pieces_view(out@) =~= before.push(piece@));
        assert(rest.subrange(0, i - start) =~= v@.subrange(start as int, i as int));
        if i >= n {
            assert(rest.subrange(0, i - start) =~= rest);
            assert(pieces_view(out@) =~= split_on(v@, sep));
            return out;
        }
        assert(rest.subrange(i - start + 1, rest.len() as int) =~= v@.subrange(
            i as int + 1,
            n as int,
        ));
        assert(split_on(v@, sep) =~= pieces_view(out@) + split_on(
            v@.subrange(i as int + 1, n as int),
            sep,
        ));
        start = i + 1;
    }
}

/// What has been stripped of leading white space has none left to strip.
pub proof fn lemma_skip_spaces_shape(s: Seq<char>)
    ensures
        skip_spaces(s).len() <= s.len(),
        skip_spaces(s).len() > 0 ==> !is_space(skip_spaces(s)[0]),
        skip_spaces(s).len() > 0 ==> skip_spaces(s).last() == s.last(),
    decreases s.len(),
{
    if s.len() > 0 && is_space(s[0]) {
        lemma_skip_spaces_shape(s.drop_first());
    }
}

/// What has been stripped of trailing white space has none left to strip,
/// and keeps its first character.
pub proof fn lemma_drop_trailing_spaces_shape(s: Seq<char>)
    ensures
        drop_trailing_spaces(s).len() <= s.len(),
        drop_trailing_spaces(s).len() > 0 ==> !is_space(drop_trailing_spaces(s).last()),
        drop_trailing_spaces(s).len() > 0 ==> drop_trailing_spaces(s)[0] == s[0],
    decreases s.len(),
{
    if s.len() > 0 && is_space(s.last()) {
        lemma_drop_trailing_spaces_shape(s.drop_last());
    }
}

/// A trimmed text neither begins nor ends with white space.
pub proof fn lemma_trimmed_has_no_space_at_its_ends(s: Seq<char>)
    ensures
        trimmed(s).len() > 0 ==> !is_space(trimmed(s)[0]) && !is_space(trimmed(s).last()),
{
    lemma_skip_spaces_shape(s);
    lemma_drop_trailing_spaces_shape(skip_spaces(s));
}

/// Trimming a trimmed text changes nothing.
pub proof fn lemma_trimmed_is_trimmed(s: Seq<char>)
    ensures
        trimmed(trimmed(s)) == trimmed(s),
{
    let t = trimmed(s);
    lemma_skip_spaces_shape(s);
    lemma_drop_trailing_spaces_shape(skip_spaces(s));
    if t.len() > 0 {
        assert(!is_space(t[0]));
        assert(!is_space(t.last()));
    }
}

/// Splitting yields at least one piece.
pub proof fn lemma_split_on_is_not_empty(s: Seq<char>, c: char)
    ensures
        split_on(s, c).len() >= 1,
    decreases s.len(),
{
    let i = first_index(s, c);
    lemma_first_index_bounds(s, c);
    if i < s.len() {
        lemma_split_on_is_not_empty(s.subrange(i + 1, s.len() as int), c);
    }
}

/// Whether `s` begins with `prefix`.
pub open spec fn begins_with(s: Seq<char>, prefix: Seq<char>) -> bool {
    prefix.len() <= s.len() && s.subrange(0, prefix.len() as int) == prefix
}

/// Whether `s` ends with `suffix`.
pub open spec fn ends_with(s: Seq<char>, suffix: Seq<char>) -> bool {
    suffix.len() <= s.len() && s.subrange(s.len() - suffix.len(), s.len() as int) == suffix
}

/// `s` without the run of `c` that it begins with.
pub open spec fn skip_leading(s: Seq<char>, c: char) -> Seq<char>
    decreases s.len(),
{
    if s.len() > 0 && s[0] == c {
        skip_leading(s.drop_first(), c)
    } else {
        s
    }
}

/// Whether `text[at..]` begins with `part`.
pub(crate) fn matches_at(text: &Vec<char>, at: usize, part: &Vec<char>) -> (r: bool)
    requires
        at <= text@.len(),
    ensures
        r == begins_with(text@.subrange(at as int, text@.len() as int), part@),
{
    let n: usize = part.len();
    let total: usize = text.len();
    if n > total - at {
        return false;
    }
    let ghost rest = text@.subrange(at as int, text@.len() as int);
    let mut i: usize = 0;
    while i < n
        invariant
            i <= n,
            n == part@.len(),
            total == text@.len(),
            at + n <= total,
            rest == text@.subrange(at as int, text@.len() as int),
            forall|j: int| 0 <= j < i ==> rest[j] == part@[j],
        decreases n - i,
    {
        if text[at + i] != part[i] {
            assert(rest.subrange(0, n as int)[i as int] != part@[i as int]);
            return false;
        }
        i += 1;
    }
    assert(rest.subrange(0, n as int) =~= part@);
    true
}

/// Whether `text` begins with `prefix`.
pub fn starts_with(text: &str, prefix: &str) -> (r: bool)
    ensures
        r == begins_with(text@, prefix@),
{
    let t: Vec<char> = chars_of(text);
    let p: Vec<char> = chars_of(prefix);
    assert(t@.subrange(0, t@.len() as int) =~= t@);
    matches_at(&t, 0, &p)
}

/// Whether `text` ends with `suffix`.
pub fn has_suffix(text: &str, suffix: &str) -> (r: bool)
    ensures
        r == ends_with(text@, suffix@),
{
    let t: Vec<char> = chars_of(text);
    let p: Vec<char> = chars_of(suffix);
    if p.len() > t.len() {
        return false;
    }
    let at: usize = t.len() - p.len();
    let r = matches_at(&t, at, &p);
    assert(t@.subrange(at as int, t@.len() as int).subrange(0, p@.len() as int) =~= t@.subrange(
        t@.len() - p@.len(),
        t@.len() as int,
    ));
    r
}

/// `text` without the run of `c` that it begins with.
pub fn strip_leading(text: &str, c: char) -> (r: String)
    ensures
        r@ == skip_leading(text@, c),
{
    let v: Vec<char> = chars_of(text);
    let n: usize = v.len();
    let mut a: usize = 0;
    assert(v@.subrange(0, n as int) =~= v@);
    while a < n && v[a] == c
        invariant
            a <= n,
            n == v@.len(),
            skip_leading(v@, c) == skip_leading(v@.subrange(a as int, n as int), c),
        decreases n - a,
    {
        assert(v@.subrange(a as int, n as int).drop_first() =~= v@.subrange(a as int + 1, n as int));
        a += 1;
    }
    string_of(&v, a, n)
}

/// `s` without the run of `c` that it ends with.
pub open spec fn drop_trailing(s: Seq<char>, c: char) -> Seq<char>
    decreases s.len(),
{
    if s.len() > 0 && s.last() == c {
        drop_trailing(s.drop_last(), c)
    } else {
        s
    }
}

/// `s` without `prefix` at its start, as often as it stands there.
pub open spec fn skip_prefixes(s: Seq<char>, prefix: Seq<char>) -> Seq<char>
    decreases s.len(),
{
    if prefix.len() > 0 && begins_with(s, prefix) {
        skip_prefixes(s.subrange(prefix.len() as int, s.len() as int), prefix)
    } else {
        s
    }
}

/// The index of the last `c` in `s`, if there is one.
pub open spec fn last_index(s: Seq<char>, c: char) -> Option<int>
    decreases s.len(),
{
    if s.len() == 0 {
        None
    } else if s.last() == c {
        Some(s.len() - 1)
    } else {
        last_index(s.drop_last(), c)
    }
}

/// The lower-case form of an ASCII letter; any other character as it is.
pub open spec fn ascii_lower(c: char) -> char {
    if 'A' <= c && c <= 'Z' {
        ((c as u8) + 32) as char
    } else {
        c
    }
}

/// `s` with its ASCII letters in lower case.
pub open spec fn ascii_lowercase(s: Seq<char>) -> Seq<char> {
    s.map_values(|c: char| ascii_lower(c))
}

/// `v` without the run of `c` that it begins with and the one that it ends with.
pub fn strip_both(v: &Vec<char>, c: char) -> (r: Vec<char>)
    ensures
        r@ == drop_trailing(skip_leading(v@, c), c),
{
    let n: usize = v.len();
    let mut a: usize = 0;
    assert(v@.subrange(0, n as int) =~= v@);
    while a < n && v[a] == c
        invariant
            a <= n,
            n == v@.len(),
            skip_leading(v@, c) == skip_leading(v@.subrange(a as int, n as int), c),
        decreases n - a,
    {
        assert(v@.subrange(a as int, n as int).drop_first() =~= v@.subrange(a as int + 1, n as int));
        a += 1;
    }
    assert(skip_leading(v@, c) == v@.subrange(a as int, n as int));
    let mut b: usize = n;
    while b > a && v[b - 1] == c
        invariant
            a <= b <= n,
            n == v@.len(),
            drop_trailing(skip_leading(v@, c), c) == drop_trailing(
                v@.subrange(a as int, b as int),
                c,
            ),
        decreases b,
    {
        assert(v@.subrange(a as int, b as int).drop_last() =~= v@.subrange(a as int, b as int - 1));
        b -= 1;
    }
    copy_range(v, a, b)
}

/// `v` without `prefix` at its start, as often as it stands there.
pub fn strip_prefixes(v: &Vec<char>, prefix: &Vec<char>) -> (r: Vec<char>)
    ensures
        r@ == skip_prefixes(v@, prefix@),
{
    let n: usize = v.len();
    let p: usize = prefix.len();
    let mut a: usize = 0;
    assert(v@.subrange(0, n as int) =~= v@);
    if p > 0 {
        while matches_at(v, a, prefix)
            invariant
                a <= n,
                n == v@.len(),
                p == prefix@.len(),
                p > 0,
                skip_prefixes(v@, prefix@) == skip_prefixes(
                    v@.subrange(a as int, n as int),
                    prefix@,
                ),
            decreases n - a,
        {
            assert(v@.subrange(a as int, n as int).subrange(p as int, n - a) =~= v@.subrange(
                a + p,
                n as int,
            ));
            a += p;
        }
    }
    copy_range(v, a, n)
}

/// The index of the last `c` in `v`, if there is one.
pub fn find_last_char(v: &Vec<char>, c: char) -> (r: Option<usize>)
    ensures
        match r {
            Some(i) => last_index(v@, c) == Some(i as int) && i < v@.len(),
            None => last_index(v@, c) is None,
        },
{
    let mut b: usize = v.len();
    assert(v@.subrange(0, b as int) =~= v@);
    while b > 0
        invariant
            b <= v@.len(),
            last_index(v@, c) == last_index(v@.subrange(0, b as int), c),
        decreases b,
    {
        if v[b - 1] == c {
            return Some(b - 1);
        }
        assert(v@.subrange(0, b as int).drop_last() =~= v@.subrange(0, b as int - 1));
        b -= 1;
    }
    None
}

/// `v` with its ASCII letters in lower case.
pub fn to_ascii_lowercase(v: &Vec<char>) -> (r: Vec<char>)
    ensures
        r@ == ascii_lowercase(v@),
{
    let mut r: Vec<char> = Vec::new();
    let mut i: usize = 0;
    while i < v.len()
        invariant
            i <= v@.len(),
            r@ == ascii_lowercase(v@.subrange(0, i as int)),
        decreases v@.len() - i,
    {
        let c: char = v[i];
        let lowered: char = if 'A' <= c && c <= 'Z' {
            ((c as u8) + 32) as char
        } else {
            c
        };
        r.push(lowered);
        assert(r@ =~= ascii_lowercase(v@.subrange(0, i as int + 1)));
        i += 1;
    }
    assert(v@.subrange(0, v@.len() as int) =~= v@);
    r
}

/// The string that holds the characters of `v`.
pub fn text_of(v: &Vec<char>) -> (r: String)
    ensures
        r@ == v@,
{
    let n: usize = v.len();
    let r = string_of(v, 0, n);
    assert(v@.subrange(0, n as int) =~= v@);
    r
}

/// Whether `needle` stands somewhere in `hay`.
pub open spec fn contains_text(hay: Seq<char>, needle: Seq<char>) -> bool {
    exists|i: int|
        0 <= i <= hay.len() && #[trigger] begins_with(hay.subrange(i, hay.len() as int), needle)
}

/// Whether `needle` stands somewhere in `hay`.
pub fn has_text(hay: &Vec<char>, needle: &Vec<char>) -> (r: bool)
    ensures
        r == contains_text(hay@, needle@),
{
    let n: usize = hay.len();
    let mut i: usize = 0;
    loop
        invariant
            i <= n,
            n == hay@.len(),
            forall|j: int|
                0 <= j < i ==> !(#[trigger] begins_with(hay@.subrange(j, n as int), needle@)),
        decreases n - i,
    {
        if matches_at(hay, i, needle) {
            return true;
        }
        if i == n {
            return false;
        }
        i += 1;
    }
}

/// Whether two character vectors hold the same characters.
pub fn same_chars(a: &Vec<char>, b: &Vec<char>) -> (r: bool)
    ensures
        r == (a@ == b@),
{
    if a.len() != b.len() {
        return false;
    }
    assert(a@.subrange(0, a@.len() as int) =~= a@);
    let r = matches_at(a, 0, b);
    assert(a@.subrange(0, b@.len() as int) =~= a@);
    r
}

} // verus!
