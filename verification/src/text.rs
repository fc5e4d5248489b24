//! Text handling shared by the rest of the library: ASCII case folding,
//! character classes, searching and splitting character sequences, decimal
//! numbers, and conversions between strings and character vectors.

use vstd::prelude::*;

verus! {

// ---------------------------------------------------------------- characters

/// Folds one ASCII upper-case letter to lower case; every other character is kept.
pub open spec fn lower_char(c: char) -> char {
    if 'A' <= c && c <= 'Z' {
        ((c as u32) + 32) as char
    } else {
        c
    }
}

/// Folds one ASCII lower-case letter to upper case; every other character is kept.
pub open spec fn upper_char(c: char) -> char {
    if 'a' <= c && c <= 'z' {
        ((c as u32) - 32) as char
    } else {
        c
    }
}

/// ASCII lower-casing of a whole character sequence.
pub open spec fn lower(s: Seq<char>) -> Seq<char> {
    s.map_values(|c: char| lower_char(c))
}

/// ASCII upper-casing of a whole character sequence.
pub open spec fn upper(s: Seq<char>) -> Seq<char> {
    s.map_values(|c: char| upper_char(c))
}

/// Equality of two sequences when ASCII letters are compared without case.
pub open spec fn eq_ignore_case(a: Seq<char>, b: Seq<char>) -> bool {
    lower(a) == lower(b)
}

pub open spec fn is_digit(c: char) -> bool {
    '0' <= c && c <= '9'
}

pub open spec fn is_ascii_alpha(c: char) -> bool {
    ('a' <= c && c <= 'z') || ('A' <= c && c <= 'Z')
}

pub open spec fn is_ascii_alnum(c: char) -> bool {
    is_digit(c) || is_ascii_alpha(c)
}

/// The Unicode `White_Space` property, which `char::is_whitespace` and
/// `str::trim` go by.
pub open spec fn is_space(c: char) -> bool {
    ||| ('\u{9}' <= c && c <= '\u{d}')
    ||| c == ' '
    ||| c == '\u{85}'
    ||| c == '\u{a0}'
    ||| c == '\u{1680}'
    ||| ('\u{2000}' <= c && c <= '\u{200a}')
    ||| c == '\u{2028}'
    ||| c == '\u{2029}'
    ||| c == '\u{202f}'
    ||| c == '\u{205f}'
    ||| c == '\u{3000}'
}

pub fn lower_char_exec(c: char) -> (r: char)
    ensures
        r == lower_char(c),
{
    if 'A' <= c && c <= 'Z' {
        let b: u8 = (c as u32 + 32) as u8;
        b as char
    } else {
        c
    }
}

pub fn upper_char_exec(c: char) -> (r: char)
    ensures
        r == upper_char(c),
{
    if 'a' <= c && c <= 'z' {
        let b: u8 = (c as u32 - 32) as u8;
        b as char
    } else {
        c
    }
}

pub fn is_digit_exec(c: char) -> (r: bool)
    ensures
        r == is_digit(c),
{
    '0' <= c && c <= '9'
}

pub fn is_ascii_alnum_exec(c: char) -> (r: bool)
    ensures
        r == is_ascii_alnum(c),
{
    ('0' <= c && c <= '9') || ('a' <= c && c <= 'z') || ('A' <= c && c <= 'Z')
}

pub fn is_space_exec(c: char) -> (r: bool)
    ensures
        r == is_space(c),
{
    ('\u{9}' <= c && c <= '\u{d}') || c == ' ' || c == '\u{85}' || c == '\u{a0}' || c
        == '\u{1680}' || ('\u{2000}' <= c && c <= '\u{200a}') || c == '\u{2028}' || c
        == '\u{2029}' || c == '\u{202f}' || c == '\u{205f}' || c == '\u{3000}'
}

// ------------------------------------------------------ strings and vectors

/// The characters of a string slice, in order.
pub fn chars_of(s: &str) -> (v: Vec<char>)
    ensures
        v@ == s@,
{
    let mut v: Vec<char> = Vec::new();
    for c in it: s.chars()
        invariant
            v@ == it.seq().take(it.index() as int),
    {
        v.push(c);
    }
    v
}

/// Collects characters into a string, through `String::from_iter`, which
/// std documents as concatenating the characters in order.
#[verifier::external_body]
pub fn string_of(chars: Vec<char>) -> (s: String)
    ensures
        s@ == chars@,
{
    String::from_iter(chars)
}

/// A copy of `v[lo..hi]`.
pub fn slice_of(v: &Vec<char>, lo: usize, hi: usize) -> (r: Vec<char>)
    requires
        lo <= hi <= v.len(),
    ensures
        r@ == v@.subrange(lo as int, hi as int),
{
    let mut r: Vec<char> = Vec::new();
    let mut i = lo;
    while i < hi
        invariant
            lo <= i <= hi <= v.len(),
            r@ == v@.subrange(lo as int, i as int),
        decreases hi - i,
    {
        r.push(v[i]);
        i += 1;
    }
    r
}

/// Appends the characters of `tail` to `v`.
pub fn push_all(v: &mut Vec<char>, tail: &Vec<char>)
    ensures
        final(v)@ == old(v)@ + tail@,
{
    let mut i: usize = 0;
    while i < tail.len()
        invariant
            i <= tail.len(),
            v@ == old(v)@ + tail@.take(i as int),
        decreases tail.len() - i,
    {
        v.push(tail[i]);
        i += 1;
        assert(tail@.take(i as int) == tail@.take((i - 1) as int).push(tail@[i - 1]));
    }
    assert(tail@.take(tail.len() as int) == tail@);
}

/// Appends the characters of a string slice to `v`.
pub fn push_str(v: &mut Vec<char>, s: &str)
    ensures
        final(v)@ == old(v)@ + s@,
{
    let tail = chars_of(s);
    push_all(v, &tail);
}

pub fn lower_vec(v: &Vec<char>) -> (r: Vec<char>)
    ensures
        r@ == lower(v@),
{
    let mut r: Vec<char> = Vec::new();
    let mut i: usize = 0;
    while i < v.len()
        invariant
            i <= v.len(),
            r@ == lower(v@.take(i as int)),
        decreases v.len() - i,
    {
        r.push(lower_char_exec(v[i]));
        i += 1;
        assert(lower(v@.take(i as int)) =~= lower(v@.take((i - 1) as int)).push(
            lower_char(v@[i - 1]),
        ));
    }
    assert(v@.take(v.len() as int) == v@);
    r
}

pub fn upper_vec(v: &Vec<char>) -> (r: Vec<char>)
    ensures
        r@ == upper(v@),
{
    let mut r: Vec<char> = Vec::new();
    let mut i: usize = 0;
    while i < v.len()
        invariant
            i <= v.len(),
            r@ == upper(v@.take(i as int)),
        decreases v.len() - i,
    {
        r.push(upper_char_exec(v[i]));
        i += 1;
        assert(upper(v@.take(i as int)) =~= upper(v@.take((i - 1) as int)).push(
            upper_char(v@[i - 1]),
        ));
    }
    assert(v@.take(v.len() as int) == v@);
    r
}

/// ASCII lower-casing of a string, as `str::to_ascii_lowercase` does it.
pub fn to_lower(s: &str) -> (r: String)
    ensures
        r@ == lower(s@),
{
    string_of(lower_vec(&chars_of(s)))
}

pub fn eq_vec(a: &Vec<char>, b: &Vec<char>) -> (r: bool)
    ensures
        r == (a@ == b@),
{
    if a.len() != b.len() {
        return false;
    }
    let mut i: usize = 0;
    while i < a.len()
        invariant
            i <= a.len() == b.len(),
            forall|j: int| 0 <= j < i ==> a@[j] == b@[j],
        decreases a.len() - i,
    {
        if a[i] != b[i] {
            return false;
        }
        i += 1;
    }
    assert(a@ =~= b@);
    true
}

pub fn eq_ignore_case_vec(a: &Vec<char>, b: &Vec<char>) -> (r: bool)
    ensures
        r == eq_ignore_case(a@, b@),
{
    let la = lower_vec(a);
    let lb = lower_vec(b);
    eq_vec(&la, &lb)
}

/// `str::eq_ignore_ascii_case`.
pub fn str_eq_ignore_case(a: &str, b: &str) -> (r: bool)
    ensures
        r == eq_ignore_case(a@, b@),
{
    eq_ignore_case_vec(&chars_of(a), &chars_of(b))
}

/// Exact equality of two string slices.
pub fn str_eq(a: &str, b: &str) -> (r: bool)
    ensures
        r == (a@ == b@),
{
    eq_vec(&chars_of(a), &chars_of(b))
}

// ------------------------------------------------------------ searching

/// Whether `p` is a prefix of `s`.
pub open spec fn starts_with(s: Seq<char>, p: Seq<char>) -> bool {
    p.len() <= s.len() && s.take(p.len() as int) == p
}

/// Whether `p` is a suffix of `s`.
pub open spec fn ends_with(s: Seq<char>, p: Seq<char>) -> bool {
    p.len() <= s.len() && s.skip(s.len() - p.len()) == p
}

/// Whether `p` occurs in `s` at position `i`.
pub open spec fn occurs_at(s: Seq<char>, p: Seq<char>, i: int) -> bool {
    0 <= i && i + p.len() <= s.len() && s.subrange(i, i + p.len()) == p
}

/// The first position at or after `i` where `p` occurs in `s`.
pub open spec fn first_from(s: Seq<char>, p: Seq<char>, i: int) -> Option<int>
    decreases s.len() + 1 - i,
{
    if i < 0 || i + p.len() > s.len() {
        None
    } else if occurs_at(s, p, i) {
        Some(i)
    } else {
        first_from(s, p, i + 1)
    }
}

/// The last position at or before `i` where `p` occurs in `s`.
pub open spec fn last_from(s: Seq<char>, p: Seq<char>, i: int) -> Option<int>
    decreases i + 1,
{
    if i < 0 {
        None
    } else if occurs_at(s, p, i) {
        Some(i)
    } else {
        last_from(s, p, i - 1)
    }
}

proof fn lemma_last_from_none(s: Seq<char>, p: Seq<char>, i: int)
    requires
        forall|k: int| k >= 0 ==> !occurs_at(s, p, k),
    ensures
        last_from(s, p, i) is None,
    decreases i + 1,
{
    if i >= 0 {
        lemma_last_from_none(s, p, i - 1);
    }
}

/// The position of the first occurrence of `p` in `s`.
pub open spec fn first_occurrence(s: Seq<char>, p: Seq<char>) -> Option<int> {
    first_from(s, p, 0)
}

/// The position of the last occurrence of `p` in `s`.
pub open spec fn last_occurrence(s: Seq<char>, p: Seq<char>) -> Option<int> {
    last_from(s, p, s.len() - p.len())
}

/// `str::split_once`: the text before and after the first occurrence of `p`.
pub open spec fn split_once(s: Seq<char>, p: Seq<char>) -> Option<(Seq<char>, Seq<char>)> {
    match first_occurrence(s, p) {
        Some(i) => Some((s.take(i), s.skip(i + p.len()))),
        None => None,
    }
}

/// `str::rsplit_once`: the text before and after the last occurrence of `p`.
pub open spec fn rsplit_once(s: Seq<char>, p: Seq<char>) -> Option<(Seq<char>, Seq<char>)> {
    match last_occurrence(s, p) {
        Some(i) => Some((s.take(i), s.skip(i + p.len()))),
        None => None,
    }
}

pub fn occurs_at_exec(s: &Vec<char>, p: &Vec<char>, i: usize) -> (r: bool)
    ensures
        r == occurs_at(s@, p@, i as int),
{
    if i > s.len() || p.len() > s.len() - i {
        return false;
    }
    let mut k: usize = 0;
    while k < p.len()
        invariant
            k <= p.len(),
            i + p.len() <= s.len(),
            forall|j: int| 0 <= j < k ==> s@[i + j] == p@[j],
        decreases p.len() - k,
    {
        if s[i + k] != p[k] {
            assert(s@.subrange(i as int, i + p.len())[k as int] != p@[k as int]);
            return false;
        }
        k += 1;
    }
    assert(s@.subrange(i as int, i + p.len()) =~= p@);
    true
}

/// Finds the first occurrence of `p` in `s`.
pub fn find(s: &Vec<char>, p: &Vec<char>) -> (r: Option<usize>)
    ensures
        match r {
            Some(i) => first_occurrence(s@, p@) == Some(i as int) && i + p@.len() <= s@.len(),
            None => first_occurrence(s@, p@) is None,
        },
{
    if p.len() > s.len() {
        assert(first_from(s@, p@, 0) is None);
        return None;
    }
    let last = s.len() - p.len();
    let mut i: usize = 0;
    while i <= last
        invariant
            last == s.len() - p.len(),
            i <= last + 1,
            first_from(s@, p@, 0) == first_from(s@, p@, i as int),
        decreases last + 1 - i,
    {
        if occurs_at_exec(s, p, i) {
            return Some(i);
        }
        if i == last {
            assert(first_from(s@, p@, i + 1) is None);
            return None;
        }
        i += 1;
    }
    None
}

/// Finds the last occurrence of `p` in `s`.
pub fn rfind(s: &Vec<char>, p: &Vec<char>) -> (r: Option<usize>)
    ensures
        match r {
            Some(i) => last_occurrence(s@, p@) == Some(i as int) && i + p@.len() <= s@.len(),
            None => last_occurrence(s@, p@) is None,
        },
{
    if p.len() > s.len() {
        proof {
            lemma_last_from_none(s@, p@, s@.len() as int - p@.len() as int);
        }
        return None;
    }
    let mut i: usize = s.len() - p.len();
    loop
        invariant
            i <= s.len() - p.len(),
            last_occurrence(s@, p@) == last_from(s@, p@, i as int),
        decreases i,
    {
        if occurs_at_exec(s, p, i) {
            return Some(i);
        }
        if i == 0 {
            assert(last_from(s@, p@, -1) is None);
            return None;
        }
        i -= 1;
    }
}

/// `str::split_once` on character vectors.
pub fn split_once_exec(s: &Vec<char>, p: &Vec<char>) -> (r: Option<(Vec<char>, Vec<char>)>)
    ensures
        match r {
            Some((a, b)) => split_once(s@, p@) == Some((a@, b@)),
            None => split_once(s@, p@) is None,
        },
{
    let found = find(s, p);
    match found {
        Some(i) => {
            let plen = p.len();
            let slen = s.len();
            assert(plen == p@.len());
            assert(i + plen <= slen);
            let j: usize = i + plen;
            let before = slice_of(s, 0, i);
            let after = slice_of(s, j, s.len());
            Some((before, after))
        },
        None => None,
    }
}

/// `str::rsplit_once` on character vectors.
pub fn rsplit_once_exec(s: &Vec<char>, p: &Vec<char>) -> (r: Option<(Vec<char>, Vec<char>)>)
    ensures
        match r {
            Some((a, b)) => rsplit_once(s@, p@) == Some((a@, b@)),
            None => rsplit_once(s@, p@) is None,
        },
{
    let found = rfind(s, p);
    match found {
        Some(i) => {
            let plen = p.len();
            let slen = s.len();
            assert(plen == p@.len());
            assert(i + plen <= slen);
            let j: usize = i + plen;
            let before = slice_of(s, 0, i);
            let after = slice_of(s, j, s.len());
            Some((before, after))
        },
        None => None,
    }
}

pub fn starts_with_exec(s: &Vec<char>, p: &Vec<char>) -> (r: bool)
    ensures
        r == starts_with(s@, p@),
{
    let r = occurs_at_exec(s, p, 0);
    proof {
        if r {
            assert(s@.take(p@.len() as int) =~= s@.subrange(0, p@.len() as int));
        }
        if starts_with(s@, p@) {
            assert(s@.take(p@.len() as int) =~= s@.subrange(0, p@.len() as int));
        }
    }
    r
}

pub fn ends_with_exec(s: &Vec<char>, p: &Vec<char>) -> (r: bool)
    ensures
        r == ends_with(s@, p@),
{
    if p.len() > s.len() {
        return false;
    }
    let r = occurs_at_exec(s, p, s.len() - p.len());
    proof {
        assert(s@.skip(s@.len() - p@.len()) =~= s@.subrange(
            s@.len() - p@.len(),
            s@.len() as int,
        ));
    }
    r
}

/// Whether `c` occurs in `s`.
pub fn contains_char(s: &Vec<char>, c: char) -> (r: bool)
    ensures
        r == s@.contains(c),
{
    let mut i: usize = 0;
    while i < s.len()
        invariant
            i <= s.len(),
            forall|j: int| 0 <= j < i ==> s@[j] != c,
        decreases s.len() - i,
    {
        if s[i] == c {
            assert(s@[i as int] == c);
            return true;
        }
        i += 1;
    }
    false
}

// ---------------------------------------------------------------- splitting

/// `str::split` on any of the characters in `seps`: the pieces between
/// separators, in order, empty pieces included.
pub open spec fn split_on(s: Seq<char>, seps: Seq<char>) -> Seq<Seq<char>>
    decreases s.len(),
{
    if s.len() == 0 {
        seq![Seq::<char>::empty()]
    } else {
        let init = split_on(s.drop_last(), seps);
        if seps.contains(s.last()) {
            init.push(Seq::<char>::empty())
        } else {
            init.update(init.len() - 1, init.last().push(s.last()))
        }
    }
}

pub proof fn lemma_split_on_nonempty(s: Seq<char>, seps: Seq<char>)
    ensures
        split_on(s, seps).len() >= 1,
    decreases s.len(),
{
    if s.len() > 0 {
        lemma_split_on_nonempty(s.drop_last(), seps);
    }
}

/// Splits `v` on any of the characters in `seps`.
pub fn split_on_exec(v: &Vec<char>, seps: &Vec<char>) -> (r: Vec<Vec<char>>)
    ensures
        r.deep_view() == split_on(v@, seps@),
{
    let mut pieces: Vec<Vec<char>> = Vec::new();
    let mut current: Vec<char> = Vec::new();
    let mut i: usize = 0;
    while i < v.len()
        invariant
            i <= v.len(),
            pieces.deep_view().push(current@) == split_on(v@.take(i as int), seps@),
        decreases v.len() - i,
    {
        let c = v[i];
        let ghost before = pieces.deep_view().push(current@);
        proof {
            assert(v@.take(i + 1).drop_last() =~= v@.take(i as int));
            assert(v@.take(i + 1).last() == c);
        }
        if contains_char(seps, c) {
            let ghost old_pieces = pieces.deep_view();
            let ghost old_current = current@;
            pieces.push(current);
            current = Vec::new();
            proof {
                assert(pieces.deep_view() =~~= old_pieces.push(old_current));
                assert(pieces.deep_view().push(current@) =~= before.push(Seq::<char>::empty()));
            }
        } else {
            current.push(c);
            proof {
                assert(pieces.deep_view().push(current@) =~= before.update(
                    before.len() - 1,
                    before.last().push(c),
                ));
            }
        }
        i += 1;
    }
    assert(v@.take(v.len() as int) =~= v@);
    let ghost old_pieces = pieces.deep_view();
    let ghost old_current = current@;
    pieces.push(current);
    assert(pieces.deep_view() =~~= old_pieces.push(old_current));
    pieces
}

// ------------------------------------------------------------------ trimming

/// How many leading characters satisfy `is_space`.
pub open spec fn leading_spaces(s: Seq<char>) -> nat
    decreases s.len(),
{
    if s.len() > 0 && is_space(s[0]) {
        1 + leading_spaces(s.drop_first())
    } else {
        0
    }
}

/// How many trailing characters satisfy `is_space`.
pub open spec fn trailing_spaces(s: Seq<char>) -> nat
    decreases s.len(),
{
    if s.len() > 0 && is_space(s.last()) {
        1 + trailing_spaces(s.drop_last())
    } else {
        0
    }
}

/// `str::trim_start`.
pub open spec fn trim_start(s: Seq<char>) -> Seq<char> {
    s.skip(leading_spaces(s) as int)
}

/// `str::trim_end`.
pub open spec fn trim_end(s: Seq<char>) -> Seq<char> {
    s.take(s.len() - trailing_spaces(s))
}

/// `str::trim`.
pub open spec fn trim(s: Seq<char>) -> Seq<char> {
    trim_end(trim_start(s))
}

pub proof fn lemma_leading_spaces(s: Seq<char>)
    ensures
        leading_spaces(s) <= s.len(),
        forall|j: int| 0 <= j < leading_spaces(s) ==> is_space(s[j]),
        leading_spaces(s) < s.len() ==> !is_space(s[leading_spaces(s) as int]),
    decreases s.len(),
{
    if s.len() > 0 && is_space(s[0]) {
        lemma_leading_spaces(s.drop_first());
        assert forall|j: int| 0 <= j < leading_spaces(s) implies is_space(s[j]) by {
            if j > 0 {
                assert(s[j] == s.drop_first()[j - 1]);
            }
        }
    }
}

pub proof fn lemma_trailing_spaces(s: Seq<char>)
    ensures
        trailing_spaces(s) <= s.len(),
        forall|j: int| s.len() - trailing_spaces(s) <= j < s.len() ==> is_space(s[j]),
        trailing_spaces(s) < s.len() ==> !is_space(s[s.len() - trailing_spaces(s) - 1]),
    decreases s.len(),
{
    if s.len() > 0 && is_space(s.last()) {
        lemma_trailing_spaces(s.drop_last());
        assert forall|j: int| s.len() - trailing_spaces(s) <= j < s.len() implies is_space(s[j]) by {
            if j < s.len() - 1 {
                assert(s[j] == s.drop_last()[j]);
            }
        }
        if trailing_spaces(s) < s.len() {
            assert(s[s.len() - trailing_spaces(s) - 1] == s.drop_last()[s.len()
                - trailing_spaces(s) - 1]);
        }
    }
}

/// Counts the leading white space of `v`.
pub fn count_leading_spaces(v: &Vec<char>) -> (n: usize)
    ensures
        n == leading_spaces(v@),
{
    let mut i: usize = 0;
    assert(v@.skip(0) =~= v@);
    while i < v.len() && is_space_exec(v[i])
        invariant
            i <= v.len(),
            leading_spaces(v@) == i + leading_spaces(v@.skip(i as int)),
        decreases v.len() - i,
    {
        assert(v@.skip(i as int).drop_first() =~= v@.skip(i + 1));
        i += 1;
    }
    i
}

/// Counts the trailing white space of `v`.
pub fn count_trailing_spaces(v: &Vec<char>) -> (n: usize)
    ensures
        n == trailing_spaces(v@),
{
    let mut j: usize = v.len();
    assert(v@.take(v.len() as int) =~= v@);
    while j > 0 && is_space_exec(v[j - 1])
        invariant
            j <= v.len(),
            trailing_spaces(v@) == (v.len() - j) + trailing_spaces(v@.take(j as int)),
        decreases j,
    {
        let ghost t = v@.take(j as int);
        assert(t.drop_last() =~= v@.take(j - 1));
        assert(t.last() == v@[j - 1]);
        j -= 1;
    }
    v.len() - j
}

/// `str::trim` on a character vector.
pub fn trim_vec(v: &Vec<char>) -> (r: Vec<char>)
    ensures
        r@ == trim(v@),
{
    let lead = count_leading_spaces(v);
    proof {
        lemma_leading_spaces(v@);
    }
    let rest = slice_of(v, lead, v.len());
    assert(rest@ == trim_start(v@));
    let tail = count_trailing_spaces(&rest);
    proof {
        lemma_trailing_spaces(rest@);
    }
    slice_of(&rest, 0, rest.len() - tail)
}

/// `str::trim` on a string slice.
pub fn trim_str(s: &str) -> (r: String)
    ensures
        r@ == trim(s@),
{
    string_of(trim_vec(&chars_of(s)))
}

// ------------------------------------------------------------------ numbers

/// The value of a sequence of decimal digits.
pub open spec fn digits_value(s: Seq<char>) -> nat
    decreases s.len(),
{
    if s.len() == 0 {
        0
    } else {
        digits_value(s.drop_last()) * 10 + ((s.last() as u32) - ('0' as u32)) as nat
    }
}

pub open spec fn all_digits(s: Seq<char>) -> bool {
    forall|i: int| 0 <= i < s.len() ==> is_digit(s[i])
}

/// The text after an optional leading `+`.
pub open spec fn unsigned_digits(s: Seq<char>) -> Seq<char> {
    if s.len() > 0 && s[0] == '+' {
        s.drop_first()
    } else {
        s
    }
}

/// What `u16::from_str` accepts: an optional `+`, then at least one decimal
/// digit, and a value that fits.
pub open spec fn parse_u16(s: Seq<char>) -> Option<u16> {
    let digits = unsigned_digits(s);
    if digits.len() > 0 && all_digits(digits) && digits_value(digits) <= 65535 {
        Some(digits_value(digits) as u16)
    } else {
        None
    }
}

proof fn lemma_digits_value_grows(s: Seq<char>, i: int)
    requires
        0 <= i <= s.len(),
        all_digits(s),
    ensures
        digits_value(s.take(i)) <= digits_value(s),
    decreases s.len() - i,
{
    if i < s.len() {
        lemma_digits_value_grows(s, i + 1);
        assert(s.take(i + 1).drop_last() =~= s.take(i));
    } else {
        assert(s.take(i) =~= s);
    }
}

/// `u16::from_str`.
pub fn parse_u16_exec(s: &Vec<char>) -> (r: Option<u16>)
    ensures
        r == parse_u16(s@),
{
    let start: usize = if s.len() > 0 && s[0] == '+' {
        1
    } else {
        0
    };
    let ghost digits = unsigned_digits(s@);
    assert(digits =~= s@.skip(start as int));
    if start >= s.len() {
        assert(digits.len() == 0);
        return None;
    }
    let mut value: u32 = 0;
    let mut i = start;
    while i < s.len()
        invariant
            start <= i <= s.len(),
            digits == unsigned_digits(s@),
            digits =~= s@.skip(start as int),
            all_digits(s@.subrange(start as int, i as int)),
            value == digits_value(s@.subrange(start as int, i as int)),
            value <= 65535,
        decreases s.len() - i,
    {
        if !is_digit_exec(s[i]) {
            proof {
                assert(digits[i - start] == s@[i as int]);
                assert(!is_digit(digits[i - start]));
                assert(!all_digits(digits));
                assert(parse_u16(s@) is None);
            }
            return None;
        }
        let d: u32 = s[i] as u32 - '0' as u32;
        assert(s@.subrange(start as int, i + 1).drop_last() =~= s@.subrange(
            start as int,
            i as int,
        ));
        if value > 6553 || (value == 6553 && d > 5) {
            proof {
                let next = s@.subrange(start as int, i + 1);
                assert(digits_value(next) > 65535);
                if all_digits(digits) {
                    assert(next =~= digits.take(i + 1 - start));
                    lemma_digits_value_grows(digits, i + 1 - start);
                }
                assert(parse_u16(s@) is None);
            }
            return None;
        }
        value = value * 10 + d;
        i += 1;
    }
    assert(s@.subrange(start as int, s@.len() as int) =~= digits);
    Some(value as u16)
}

/// The decimal spelling of a natural number.
pub open spec fn decimal(n: nat) -> Seq<char>
    decreases n,
{
    if n < 10 {
        seq![digit_char(n)]
    } else {
        decimal(n / 10).push(digit_char(n % 10))
    }
}

pub open spec fn digit_char(d: nat) -> char {
    (('0' as u32) + d) as char
}

/// The decimal spelling of `n`, as `u64::to_string` writes it.
pub fn decimal_exec(n: u64) -> (r: Vec<char>)
    ensures
        r@ == decimal(n as nat),
    decreases n,
{
    if n < 10 {
        let c = ((n as u8) + 48) as char;
        assert(c == digit_char(n as nat));
        vec![c]
    } else {
        let mut r = decimal_exec(n / 10);
        let d = n % 10;
        let c = ((d as u8) + 48) as char;
        assert(c == digit_char((n % 10) as nat));
        r.push(c);
        r
    }
}

// ------------------------------------------------------------------- UTF-8

/// How many bytes UTF-8 takes for one character.
pub open spec fn char_width(c: char) -> nat {
    if (c as u32) < 0x80 {
        1
    } else if (c as u32) < 0x800 {
        2
    } else if (c as u32) < 0x10000 {
        3
    } else {
        4
    }
}

/// How many bytes UTF-8 takes for a character sequence: `str::len`.
pub open spec fn utf8_len(s: Seq<char>) -> nat
    decreases s.len(),
{
    if s.len() == 0 {
        0
    } else {
        char_width(s[0]) + utf8_len(s.drop_first())
    }
}

/// How many leading characters fit, whole, in `n` bytes.
pub open spec fn fit_count(s: Seq<char>, n: int) -> nat
    decreases s.len(),
{
    if s.len() == 0 || char_width(s[0]) > n {
        0
    } else {
        1 + fit_count(s.drop_first(), n - char_width(s[0]))
    }
}

/// The longest prefix of whole characters that fits in `n` bytes.
pub open spec fn byte_prefix(s: Seq<char>, n: int) -> Seq<char> {
    s.take(fit_count(s, n) as int)
}

/// Whether cutting `s` after `n` bytes lands between two characters, as
/// `String::truncate` requires (a cut beyond the end cuts nothing).
pub open spec fn cut_ok(s: Seq<char>, n: int) -> bool {
    utf8_len(s) <= n || utf8_len(byte_prefix(s, n)) == n
}

/// Whether every character is ASCII.
pub open spec fn is_ascii(s: Seq<char>) -> bool {
    forall|i: int| 0 <= i < s.len() ==> (s[i] as u32) < 0x80
}

pub proof fn lemma_fit_count(s: Seq<char>, n: int)
    ensures
        fit_count(s, n) <= s.len(),
        utf8_len(byte_prefix(s, n)) <= n || fit_count(s, n) == 0,
        n >= 0 ==> utf8_len(byte_prefix(s, n)) <= n,
        utf8_len(s) <= n ==> fit_count(s, n) == s.len(),
        fit_count(s, n) < s.len() ==> utf8_len(byte_prefix(s, n)) + char_width(
            s[fit_count(s, n) as int],
        ) > n,
    decreases s.len(),
{
    if s.len() == 0 || char_width(s[0]) > n {
        assert(byte_prefix(s, n) =~= Seq::<char>::empty());
    } else {
        let t = s.drop_first();
        let m = n - char_width(s[0]);
        lemma_fit_count(t, m);
        assert(byte_prefix(s, n).drop_first() =~= byte_prefix(t, m));
        if fit_count(s, n) < s.len() {
            assert(s[fit_count(s, n) as int] == t[fit_count(t, m) as int]);
        }
    }
}

pub proof fn lemma_byte_prefix_step(t: Seq<char>, m: int)
    requires
        t.len() > 0,
        char_width(t[0]) <= m,
    ensures
        fit_count(t, m) == 1 + fit_count(t.drop_first(), m - char_width(t[0])),
        utf8_len(byte_prefix(t, m)) == char_width(t[0]) + utf8_len(
            byte_prefix(t.drop_first(), m - char_width(t[0])),
        ),
{
    lemma_fit_count(t, m);
    lemma_fit_count(t.drop_first(), m - char_width(t[0]));
    let p = byte_prefix(t, m);
    assert(p.len() > 0);
    assert(p[0] == t[0]);
    assert(p.drop_first() =~= byte_prefix(t.drop_first(), m - char_width(t[0])));
}

pub proof fn lemma_ascii_widths(s: Seq<char>, n: int)
    requires
        is_ascii(s),
        n >= 0,
    ensures
        utf8_len(s) == s.len(),
        fit_count(s, n) == if s.len() <= n { s.len() as int } else { n },
        cut_ok(s, n),
    decreases s.len(),
{
    if s.len() > 0 {
        assert(is_ascii(s.drop_first())) by {
            assert forall|i: int| 0 <= i < s.drop_first().len() implies (s.drop_first()[i]
                as u32) < 0x80 by {
                assert(s.drop_first()[i] == s[i + 1]);
            }
        }
        assert((s[0] as u32) < 0x80);
        if n > 0 {
            lemma_ascii_widths(s.drop_first(), n - 1);
        } else {
            lemma_ascii_widths(s.drop_first(), 0);
        }
        lemma_fit_count(s, n);
    }
}

/// The UTF-8 width of one character.
pub fn char_width_exec(c: char) -> (r: usize)
    ensures
        r == char_width(c),
{
    let code = c as u32;
    if code < 0x80 {
        1
    } else if code < 0x800 {
        2
    } else if code < 0x10000 {
        3
    } else {
        4
    }
}

/// How many whole characters of `v` fit in `n` bytes, and how many bytes
/// those take.
pub fn fit_count_exec(v: &Vec<char>, n: usize) -> (r: (usize, usize))
    ensures
        r.0 == fit_count(v@, n as int),
        r.1 == utf8_len(byte_prefix(v@, n as int)),
        r.1 <= n,
{
    let mut i: usize = 0;
    let mut used: usize = 0;
    proof {
        assert(v@.skip(0) =~= v@);
    }
    while i < v.len() && char_width_exec(v[i]) <= n - used
        invariant
            i <= v.len(),
            used <= n,
            fit_count(v@, n as int) == i + fit_count(v@.skip(i as int), n - used),
            utf8_len(byte_prefix(v@, n as int)) == used + utf8_len(
                byte_prefix(v@.skip(i as int), n - used),
            ),
        decreases v.len() - i,
    {
        let w = char_width_exec(v[i]);
        proof {
            let t = v@.skip(i as int);
            assert(t[0] == v@[i as int]);
            assert(t.drop_first() =~= v@.skip(i + 1));
            lemma_byte_prefix_step(t, n - used);
        }
        used = used + w;
        i = i + 1;
    }
    proof {
        let t = v@.skip(i as int);
        assert(byte_prefix(t, n - used) =~= Seq::<char>::empty());
    }
    (i, used)
}

/// The UTF-8 length of `v`: `str::len` of the string it spells.
pub fn utf8_len_exec(v: &Vec<char>) -> (r: usize)
    requires
        utf8_len(v@) <= usize::MAX,
    ensures
        r == utf8_len(v@),
{
    let mut i: usize = v.len();
    let mut total: usize = 0;
    proof {
        assert(v@.skip(v.len() as int) =~= Seq::<char>::empty());
    }
    while i > 0
        invariant
            i <= v.len(),
            total == utf8_len(v@.skip(i as int)),
            utf8_len(v@) <= usize::MAX,
        decreases i,
    {
        proof {
            let t = v@.skip(i - 1);
            assert(t.drop_first() =~= v@.skip(i as int));
            assert(t[0] == v@[i - 1]);
            lemma_utf8_len_skip(v@, i - 1);
        }
        total = total + char_width_exec(v[i - 1]);
        i = i - 1;
    }
    assert(v@.skip(0) =~= v@);
    assert(total == utf8_len(v@.skip(0)));
    total
}

pub proof fn lemma_utf8_len_skip(s: Seq<char>, k: int)
    requires
        0 <= k <= s.len(),
    ensures
        utf8_len(s.skip(k)) <= utf8_len(s),
    decreases k,
{
    if k > 0 {
        lemma_utf8_len_skip(s, k - 1);
        let t = s.skip(k - 1);
        assert(t.drop_first() =~= s.skip(k));
    } else {
        assert(s.skip(0) =~= s);
    }
}

// --------------------------------------------------- trimming one character

/// How many leading characters equal `c`.
pub open spec fn leading_count(s: Seq<char>, c: char) -> nat
    decreases s.len(),
{
    if s.len() > 0 && s[0] == c {
        1 + leading_count(s.drop_first(), c)
    } else {
        0
    }
}

/// How many trailing characters equal `c`.
pub open spec fn trailing_count(s: Seq<char>, c: char) -> nat
    decreases s.len(),
{
    if s.len() > 0 && s.last() == c {
        1 + trailing_count(s.drop_last(), c)
    } else {
        0
    }
}

/// `str::trim_start_matches` for one character.
pub open spec fn trim_char_start(s: Seq<char>, c: char) -> Seq<char> {
    s.skip(leading_count(s, c) as int)
}

/// `str::trim_end_matches` for one character.
pub open spec fn trim_char_end(s: Seq<char>, c: char) -> Seq<char> {
    s.take(s.len() - trailing_count(s, c))
}

/// `str::trim_matches` for one character.
pub open spec fn trim_char(s: Seq<char>, c: char) -> Seq<char> {
    trim_char_end(trim_char_start(s, c), c)
}

pub proof fn lemma_leading_count(s: Seq<char>, c: char)
    ensures
        leading_count(s, c) <= s.len(),
        forall|j: int| 0 <= j < leading_count(s, c) ==> s[j] == c,
        leading_count(s, c) < s.len() ==> s[leading_count(s, c) as int] != c,
    decreases s.len(),
{
    if s.len() > 0 && s[0] == c {
        lemma_leading_count(s.drop_first(), c);
        assert forall|j: int| 0 <= j < leading_count(s, c) implies s[j] == c by {
            if j > 0 {
                assert(s[j] == s.drop_first()[j - 1]);
            }
        }
    }
}

pub proof fn lemma_trailing_count(s: Seq<char>, c: char)
    ensures
        trailing_count(s, c) <= s.len(),
        forall|j: int| s.len() - trailing_count(s, c) <= j < s.len() ==> s[j] == c,
        trailing_count(s, c) < s.len() ==> s[s.len() - trailing_count(s, c) - 1] != c,
    decreases s.len(),
{
    if s.len() > 0 && s.last() == c {
        lemma_trailing_count(s.drop_last(), c);
        assert forall|j: int| s.len() - trailing_count(s, c) <= j < s.len() implies s[j]
            == c by {
            if j < s.len() - 1 {
                assert(s[j] == s.drop_last()[j]);
            }
        }
        if trailing_count(s, c) < s.len() {
            assert(s[s.len() - trailing_count(s, c) - 1] == s.drop_last()[s.len()
                - trailing_count(s, c) - 1]);
        }
    }
}

/// `trim_char_end` on a character vector.
pub fn trim_char_end_vec(v: &Vec<char>, c: char) -> (r: Vec<char>)
    ensures
        r@ == trim_char_end(v@, c),
{
    let mut j: usize = v.len();
    assert(v@.take(v.len() as int) =~= v@);
    while j > 0 && v[j - 1] == c
        invariant
            j <= v.len(),
            trailing_count(v@, c) == (v.len() - j) + trailing_count(v@.take(j as int), c),
        decreases j,
    {
        let ghost t = v@.take(j as int);
        assert(t.drop_last() =~= v@.take(j - 1));
        assert(t.last() == v@[j - 1]);
        j -= 1;
    }
    slice_of(v, 0, j)
}

/// `trim_char` on a character vector.
pub fn trim_char_vec(v: &Vec<char>, c: char) -> (r: Vec<char>)
    ensures
        r@ == trim_char(v@, c),
{
    let mut i: usize = 0;
    assert(v@.skip(0) =~= v@);
    while i < v.len() && v[i] == c
        invariant
            i <= v.len(),
            leading_count(v@, c) == i + leading_count(v@.skip(i as int), c),
        decreases v.len() - i,
    {
        assert(v@.skip(i as int).drop_first() =~= v@.skip(i + 1));
        i += 1;
    }
    proof {
        lemma_leading_count(v@, c);
    }
    let rest = slice_of(v, i, v.len());
    assert(rest@ =~= trim_char_start(v@, c));
    trim_char_end_vec(&rest, c)
}

pub proof fn lemma_utf8_len_concat(a: Seq<char>, b: Seq<char>)
    ensures
        utf8_len(a + b) == utf8_len(a) + utf8_len(b),
    decreases a.len(),
{
    if a.len() == 0 {
        assert(a + b =~= b);
    } else {
        lemma_utf8_len_concat(a.drop_first(), b);
        assert((a + b).drop_first() =~= a.drop_first() + b);
        assert((a + b)[0] == a[0]);
    }
}

/// Decimal spellings are made of ASCII digits, and those of numbers below a
/// thousand are at most three long.
pub proof fn lemma_decimal_digits(n: nat)
    ensures
        forall|i: int| 0 <= i < decimal(n).len() ==> is_digit(#[trigger] decimal(n)[i]),
        decimal(n).len() >= 1,
        n < 10 ==> decimal(n).len() == 1,
        10 <= n < 100 ==> decimal(n).len() == 2,
        100 <= n < 1000 ==> decimal(n).len() == 3,
    decreases n,
{
    if n >= 10 {
        lemma_decimal_digits(n / 10);
        let d = decimal(n / 10);
        assert forall|i: int| 0 <= i < decimal(n).len() implies is_digit(#[trigger] decimal(n)[i]) by {
            if i < d.len() {
                assert(decimal(n)[i] == d[i]);
            }
        }
    }
}

// ------------------------------------------------- pieces around separators

/// The position of the first character of `s` that is one of `seps`.
pub open spec fn first_of_any(s: Seq<char>, seps: Seq<char>) -> Option<int>
    decreases s.len(),
{
    if s.len() == 0 {
        None
    } else if seps.contains(s[0]) {
        Some(0)
    } else {
        match first_of_any(s.drop_first(), seps) {
            Some(i) => Some(i + 1),
            None => None,
        }
    }
}

/// The first piece of `str::split` on any of `seps`: everything before the
/// first separator.
pub open spec fn before_any(s: Seq<char>, seps: Seq<char>) -> Seq<char> {
    match first_of_any(s, seps) {
        Some(i) => s.take(i),
        None => s,
    }
}

/// The first piece of `str::rsplit` on one character: everything after
/// its last occurrence.
pub open spec fn after_last(s: Seq<char>, c: char) -> Seq<char> {
    match rsplit_once(s, seq![c]) {
        Some((_, after)) => after,
        None => s,
    }
}

pub proof fn lemma_first_of_any(s: Seq<char>, seps: Seq<char>)
    ensures
        first_of_any(s, seps) matches Some(i) ==> 0 <= i < s.len() && seps.contains(s[i])
            && forall|j: int| 0 <= j < i ==> !seps.contains(#[trigger] s[j]),
        first_of_any(s, seps) is None ==> forall|j: int| 0 <= j < s.len() ==> !seps.contains(
            #[trigger] s[j],
        ),
    decreases s.len(),
{
    if s.len() > 0 && !seps.contains(s[0]) {
        let t = s.drop_first();
        lemma_first_of_any(t, seps);
        assert forall|j: int| 1 <= j < s.len() implies s[j] == t[j - 1] by {}
    }
}

/// Everything before the first of `seps` in `v`.
pub fn before_any_exec(v: &Vec<char>, seps: &Vec<char>) -> (r: Vec<char>)
    ensures
        r@ == before_any(v@, seps@),
{
    let mut i: usize = 0;
    assert(v@.skip(0) =~= v@);
    while i < v.len() && !contains_char(seps, v[i])
        invariant
            i <= v.len(),
            first_of_any(v@, seps@) == match first_of_any(v@.skip(i as int), seps@) {
                Some(j) => Some(j + i),
                None => None,
            },
        decreases v.len() - i,
    {
        assert(v@.skip(i as int).drop_first() =~= v@.skip(i + 1));
        assert(v@.skip(i as int)[0] == v@[i as int]);
        i += 1;
    }
    if i < v.len() {
        assert(v@.skip(i as int)[0] == v@[i as int]);
    } else {
        assert(v@.skip(i as int) =~= Seq::<char>::empty());
    }
    slice_of(v, 0, i)
}

/// Everything after the last `c` in `v`, or all of `v` without one.
pub fn after_last_exec(v: &Vec<char>, c: char) -> (r: Vec<char>)
    ensures
        r@ == after_last(v@, c),
{
    let sep = vec![c];
    assert(sep@ =~= seq![c]);
    match rsplit_once_exec(v, &sep) {
        Some((_, after)) => after,
        None => slice_of(v, 0, v.len()),
    }
}

// ------------------------------------------------------- ordering strings

/// Lexicographic order of character sequences by code point, which is the
/// order `String`'s `Ord` gives (UTF-8 keeps code point order).
pub open spec fn lex_lt(a: Seq<char>, b: Seq<char>) -> bool
    decreases a.len(),
{
    if a.len() == 0 {
        b.len() > 0
    } else if b.len() == 0 {
        false
    } else if a[0] != b[0] {
        a[0] < b[0]
    } else {
        lex_lt(a.drop_first(), b.drop_first())
    }
}

pub proof fn lemma_lex_irreflexive(a: Seq<char>)
    ensures
        !lex_lt(a, a),
    decreases a.len(),
{
    if a.len() > 0 {
        lemma_lex_irreflexive(a.drop_first());
    }
}

pub proof fn lemma_lex_transitive(a: Seq<char>, b: Seq<char>, c: Seq<char>)
    requires
        lex_lt(a, b),
        lex_lt(b, c),
    ensures
        lex_lt(a, c),
    decreases a.len(),
{
    if a.len() > 0 && b.len() > 0 && c.len() > 0 {
        if a[0] == b[0] && b[0] == c[0] {
            lemma_lex_transitive(a.drop_first(), b.drop_first(), c.drop_first());
        }
    }
}

pub proof fn lemma_lex_total(a: Seq<char>, b: Seq<char>)
    ensures
        a == b || lex_lt(a, b) || lex_lt(b, a),
    decreases a.len(),
{
    if a.len() > 0 && b.len() > 0 {
        if a[0] == b[0] {
            lemma_lex_total(a.drop_first(), b.drop_first());
            if a.drop_first() == b.drop_first() {
                assert(a =~= seq![a[0]] + a.drop_first());
                assert(b =~= seq![b[0]] + b.drop_first());
            }
        }
    } else if a.len() == 0 && b.len() == 0 {
        assert(a =~= b);
    }
}

/// Whether `a` comes before `b` in `String` order.
pub fn lex_lt_exec(a: &Vec<char>, b: &Vec<char>) -> (r: bool)
    ensures
        r == lex_lt(a@, b@),
{
    let mut i: usize = 0;
    assert(a@.skip(0) =~= a@ && b@.skip(0) =~= b@);
    while i < a.len() && i < b.len() && a[i] == b[i]
        invariant
            i <= a.len() && i <= b.len(),
            lex_lt(a@, b@) == lex_lt(a@.skip(i as int), b@.skip(i as int)),
        decreases a.len() - i,
    {
        assert(a@.skip(i as int).drop_first() =~= a@.skip(i + 1));
        assert(b@.skip(i as int).drop_first() =~= b@.skip(i + 1));
        i += 1;
    }
    if i < a.len() && i < b.len() {
        assert(a@.skip(i as int)[0] == a@[i as int]);
        assert(b@.skip(i as int)[0] == b@[i as int]);
        a[i] < b[i]
    } else {
        i == a.len() && i < b.len()
    }
}

/// A list of strings in strictly increasing `String` order.
pub open spec fn strictly_sorted(s: Seq<Seq<char>>) -> bool {
    forall|i: int, j: int| 0 <= i < j < s.len() ==> lex_lt(#[trigger] s[i], #[trigger] s[j])
}

pub open spec fn strings_of(v: Seq<String>) -> Seq<Seq<char>> {
    v.map_values(|s: String| s@)
}

pub proof fn lemma_push_contains(s: Seq<Seq<char>>, x: Seq<char>, y: Seq<char>)
    ensures
        s.push(x).contains(y) <==> (s.contains(y) || y == x),
{
    if s.push(x).contains(y) {
        let k = choose|k: int| 0 <= k < s.push(x).len() && s.push(x)[k] == y;
        if k < s.len() {
            assert(s[k] == y);
        }
    }
    if s.contains(y) {
        let k = choose|k: int| 0 <= k < s.len() && s[k] == y;
        assert(s.push(x)[k] == y);
    }
    if y == x {
        assert(s.push(x)[s.len() as int] == y);
    }
}

/// The distinct values of a list of strings, in `String` order: what
/// sorting and then removing repeats gives.
pub fn sorted_distinct(values: Vec<String>) -> (r: Vec<String>)
    ensures
        strictly_sorted(strings_of(r@)),
        forall|x: Seq<char>| strings_of(values@).contains(x) <==> strings_of(r@).contains(x),
{
    let mut out: Vec<String> = Vec::new();
    let mut i: usize = 0;
    while i < values.len()
        invariant
            i <= values.len(),
            strictly_sorted(strings_of(out@)),
            forall|x: Seq<char>| strings_of(values@.take(i as int)).contains(x) <==> strings_of(
                out@,
            ).contains(x),
        decreases values.len() - i,
    {
        let x = chars_of(values[i].as_str());
        let ghost before = strings_of(out@);
        // The first place whose value does not come before the new one.
        let mut p: usize = 0;
        while p < out.len() && lex_lt_exec(&chars_of(out[p].as_str()), &x)
            invariant
                p <= out.len(),
                before == strings_of(out@),
                forall|j: int| 0 <= j < p ==> lex_lt(#[trigger] before[j], x@),
            decreases out.len() - p,
        {
            p += 1;
        }
        let present = p < out.len() && eq_vec(&chars_of(out[p].as_str()), &x);
        proof {
            assert(strings_of(values@.take(i + 1)) =~= strings_of(values@.take(i as int)).push(x@));
        }
        if !present {
            out.insert(p, string_of(x));
            proof {
                let after = strings_of(out@);
                assert(after =~= before.take(p as int).push(x@) + before.skip(p as int));
                if p < before.len() {
                    lemma_lex_total(before[p as int], x@);
                }
                assert forall|a: int, b: int| 0 <= a < b < after.len() implies lex_lt(
                    #[trigger] after[a],
                    #[trigger] after[b],
                ) by {
                    if b < p {
                        assert(after[a] == before[a] && after[b] == before[b]);
                    } else if b == p {
                        assert(after[a] == before[a]);
                    } else if a == p {
                        assert(after[b] == before[b - 1]);
                        if b - 1 > p {
                            assert(lex_lt(before[p as int], before[b - 1]));
                            lemma_lex_transitive(x@, before[p as int], before[b - 1]);
                        }
                    } else if a < p {
                        assert(after[a] == before[a] && after[b] == before[b - 1]);
                    } else {
                        assert(after[a] == before[a - 1] && after[b] == before[b - 1]);
                    }
                }
                assert forall|y: Seq<char>| strings_of(values@.take(i + 1)).contains(y) <==> after.contains(
                    y,
                ) by {
                    lemma_push_contains(strings_of(values@.take(i as int)), x@, y);
                    if after.contains(y) {
                        let k = choose|k: int| 0 <= k < after.len() && after[k] == y;
                        if k < p {
                            assert(before[k] == y);
                        } else if k > p {
                            assert(before[k - 1] == y);
                        }
                    }
                    if before.contains(y) {
                        let k = choose|k: int| 0 <= k < before.len() && before[k] == y;
                        if k < p {
                            assert(after[k] == y);
                        } else {
                            assert(after[k + 1] == y);
                        }
                    }
                    if y == x@ {
                        assert(after[p as int] == y);
                    }
                }
            }
        } else {
            proof {
                assert(before[p as int] == x@);
                assert forall|y: Seq<char>| strings_of(values@.take(i + 1)).contains(y) <==> before.contains(
                    y,
                ) by {
                    lemma_push_contains(strings_of(values@.take(i as int)), x@, y);
                    if y == x@ {
                        assert(before.contains(y));
                    }
                }
            }
        }
        i += 1;
    }
    assert(values@.take(values.len() as int) =~= values@);
    out
}

/// A list of numbers in strictly increasing order.
pub open spec fn strictly_increasing(s: Seq<u16>) -> bool {
    forall|i: int, j: int| 0 <= i < j < s.len() ==> #[trigger] s[i] < #[trigger] s[j]
}

/// The distinct values of a list of numbers, in increasing order: what
/// sorting and then removing repeats gives.
pub fn sorted_distinct_u16(values: &Vec<u16>) -> (r: Vec<u16>)
    ensures
        strictly_increasing(r@),
        forall|x: u16| values@.contains(x) <==> r@.contains(x),
{
    let mut out: Vec<u16> = Vec::new();
    let mut i: usize = 0;
    while i < values.len()
        invariant
            i <= values.len(),
            strictly_increasing(out@),
            forall|x: u16| values@.take(i as int).contains(x) <==> out@.contains(x),
        decreases values.len() - i,
    {
        let x = values[i];
        let ghost before = out@;
        let mut p: usize = 0;
        while p < out.len() && out[p] < x
            invariant
                p <= out.len(),
                before == out@,
                forall|j: int| 0 <= j < p ==> #[trigger] before[j] < x,
            decreases out.len() - p,
        {
            p += 1;
        }
        proof {
            assert(values@.take(i + 1) =~= values@.take(i as int).push(x));
        }
        if p < out.len() && out[p] == x {
            proof {
                assert forall|y: u16| values@.take(i + 1).contains(y) <==> out@.contains(y) by {
                    if values@.take(i + 1).contains(y) {
                        let k = choose|k: int| 0 <= k < i + 1 && #[trigger] values@.take(i + 1)[k] == y;
                        if k < i {
                            assert(values@.take(i as int)[k] == y);
                        } else {
                            assert(out@[p as int] == y);
                        }
                    }
                    if out@.contains(y) {
                        assert(values@.take(i as int).contains(y));
                        let k = choose|k: int| 0 <= k < i && #[trigger] values@.take(i as int)[k] == y;
                        assert(values@.take(i + 1)[k] == y);
                    }
                }
            }
        } else {
            out.insert(p, x);
            proof {
                let after = out@;
                assert(after =~= before.take(p as int).push(x) + before.skip(p as int));
                assert forall|a: int, b: int| 0 <= a < b < after.len() implies #[trigger] after[a]
                    < #[trigger] after[b] by {
                    if b < p {
                        assert(after[a] == before[a] && after[b] == before[b]);
                    } else if b == p {
                        assert(after[a] == before[a]);
                    } else if a == p {
                        assert(after[b] == before[b - 1]);
                        assert(before[p as int] >= x);
                        if b - 1 > p {
                            assert(before[p as int] < before[b - 1]);
                        }
                    } else if a < p {
                        assert(after[a] == before[a] && after[b] == before[b - 1]);
                    } else {
                        assert(after[a] == before[a - 1] && after[b] == before[b - 1]);
                    }
                }
                assert forall|y: u16| values@.take(i + 1).contains(y) <==> after.contains(y) by {
                    if values@.take(i + 1).contains(y) {
                        let k = choose|k: int| 0 <= k < i + 1 && #[trigger] values@.take(i + 1)[k] == y;
                        if k < i {
                            assert(values@.take(i as int)[k] == y);
                            assert(before.contains(y));
                            let m = choose|m: int| 0 <= m < before.len() && #[trigger] before[m] == y;
                            if m < p {
                                assert(after[m] == y);
                            } else {
                                assert(after[m + 1] == y);
                            }
                        } else {
                            assert(after[p as int] == y);
                        }
                    }
                    if after.contains(y) {
                        let m = choose|m: int| 0 <= m < after.len() && #[trigger] after[m] == y;
                        if m == p {
                            assert(values@.take(i + 1)[i as int] == y);
                        } else {
                            if m < p {
                                assert(before[m] == y);
                            } else {
                                assert(before[m - 1] == y);
                            }
                            assert(before.contains(y));
                            assert(values@.take(i as int).contains(y));
                            let k = choose|k: int| 0 <= k < i && #[trigger] values@.take(i as int)[k] == y;
                            assert(values@.take(i + 1)[k] == y);
                        }
                    }
                }
            }
        }
        i += 1;
    }
    assert(values@.take(values.len() as int) =~= values@);
    out
}

} // verus!
