//! Printer Application `Create-Printer` requests: the queue name a printer
//! gets, what is sent, and what the outcome of a request means.

use vstd::prelude::*;
use crate::printers::{
    ConfiguredPrinter, ConfiguredPrinterView, name_taken, position_by_name, printers_view,
};
use crate::text::{
    byte_prefix, chars_of, cut_ok, decimal, decimal_exec, fit_count_exec, is_ascii, is_ascii_alnum,
    is_ascii_alnum_exec, is_digit, is_space, is_space_exec, lemma_ascii_widths, lemma_fit_count,
    push_all, slice_of, string_of, trailing_count, trim_char, trim_char_end, trim_char_end_vec,
    trim_char_vec, utf8_len, lemma_trailing_count, lemma_decimal_digits, lemma_utf8_len_concat,
};

verus! {

/// PAPPL rejects a `printer-name` longer than this many bytes.
pub const MAX_PRINTER_NAME_LENGTH: usize = 127;

/// How many suffixed names to try before giving up on finding a free one.
pub const MAX_NAME_ATTEMPTS: u32 = 50;

// ------------------------------------------------------------ queue names

/// What one character of a display name becomes in a queue name: ASCII
/// letters and digits stay, separators and white space become `_`, and
/// anything else is dropped.
pub open spec fn name_char(c: char) -> Option<char> {
    if is_ascii_alnum(c) {
        Some(c)
    } else if c == '-' || c == '.' || c == '_' || is_space(c) {
        Some('_')
    } else {
        None
    }
}

/// A display name mapped character by character, with runs of `_` collapsed
/// to one.
pub open spec fn collapse(s: Seq<char>) -> Seq<char>
    decreases s.len(),
{
    if s.len() == 0 {
        Seq::empty()
    } else {
        let acc = collapse(s.drop_last());
        match name_char(s.last()) {
            None => acc,
            Some(m) => if m == '_' && acc.len() > 0 && acc.last() == '_' {
                acc
            } else {
                acc.push(m)
            },
        }
    }
}

pub open spec fn printer_word() -> Seq<char> {
    seq!['p', 'r', 'i', 'n', 't', 'e', 'r']
}

/// `printer` in place of a name that has nothing left.
pub open spec fn or_printer(s: Seq<char>) -> Seq<char> {
    if s.len() == 0 {
        printer_word()
    } else {
        s
    }
}

/// A name must start with a letter or an underscore, so a leading digit
/// gets an underscore in front of it.
pub open spec fn digit_guarded(s: Seq<char>) -> Seq<char> {
    if s.len() > 0 && is_digit(s[0]) {
        seq!['_'] + s
    } else {
        s
    }
}

/// `truncate_name`: cut to the byte limit, then drop trailing underscores.
pub open spec fn truncated(s: Seq<char>) -> Seq<char> {
    trim_char_end(byte_prefix(s, MAX_PRINTER_NAME_LENGTH as int), '_')
}

/// The queue name a display name becomes.
pub open spec fn printer_name_spec(display_name: Seq<char>) -> Seq<char> {
    truncated(digit_guarded(or_printer(trim_char(collapse(display_name), '_'))))
}

/// The characters a queue name is made of.
pub open spec fn name_charset(s: Seq<char>) -> bool {
    forall|i: int| 0 <= i < s.len() ==> is_ascii_alnum(#[trigger] s[i]) || s[i] == '_'
}

/// No two underscores stand next to each other.
pub open spec fn no_double_underscore(s: Seq<char>) -> bool {
    forall|i: int| 0 <= i < s.len() - 1 ==> !(#[trigger] s[i] == '_' && s[i + 1] == '_')
}

/// What a queue name looks like: made of letters, digits and single
/// underscores, starting with a letter or underscore, not ending with an
/// underscore, starting with an underscore only before a digit, and within
/// the length a Printer Application accepts.
pub open spec fn well_formed_name(s: Seq<char>) -> bool {
    &&& 1 <= s.len() <= MAX_PRINTER_NAME_LENGTH
    &&& name_charset(s)
    &&& no_double_underscore(s)
    &&& !is_digit(s[0])
    &&& s.last() != '_'
    &&& s[0] == '_' ==> s.len() >= 2 && is_digit(s[1])
}

pub proof fn lemma_collapse(s: Seq<char>)
    ensures
        name_charset(collapse(s)),
        no_double_underscore(collapse(s)),
    decreases s.len(),
{
    if s.len() > 0 {
        lemma_collapse(s.drop_last());
    }
}

pub proof fn lemma_charset_ascii(s: Seq<char>)
    requires
        name_charset(s),
    ensures
        is_ascii(s),
{
    assert forall|i: int| 0 <= i < s.len() implies (s[i] as u32) < 0x80 by {
        assert(is_ascii_alnum(s[i]) || s[i] == '_');
    }
}

/// Normalizes a display name to PAPPL's 127-character queue-name grammar.
pub fn printer_name_from_display_name(display_name: &str) -> (r: String)
    ensures
        r@ == printer_name_spec(display_name@),
        well_formed_name(r@),
{
    let chars = chars_of(display_name);
    let mut name: Vec<char> = Vec::new();
    let mut i: usize = 0;
    while i < chars.len()
        invariant
            i <= chars.len(),
            chars@ == display_name@,
            name@ == collapse(chars@.take(i as int)),
        decreases chars.len() - i,
    {
        let c = chars[i];
        proof {
            assert(chars@.take(i + 1).drop_last() =~= chars@.take(i as int));
            assert(chars@.take(i + 1).last() == c);
        }
        let mapped: Option<char> = if is_ascii_alnum_exec(c) {
            Some(c)
        } else if c == '-' || c == '.' || c == '_' || is_space_exec(c) {
            Some('_')
        } else {
            None
        };
        match mapped {
            Some(m) => {
                let n = name.len();
                if !(m == '_' && n > 0 && name[n - 1] == '_') {
                    name.push(m);
                }
            },
            None => {},
        }
        i += 1;
    }
    assert(chars@.take(chars.len() as int) =~= chars@);
    let trimmed = trim_char_vec(&name, '_');
    let mut base: Vec<char> = if trimmed.len() == 0 {
        let w = chars_of("printer");
        proof {
            reveal_strlit("printer");
            assert(w@ =~= printer_word());
        }
        w
    } else {
        trimmed
    };
    let guarded: Vec<char> = if base.len() > 0 && '0' <= base[0] && base[0] <= '9' {
        let mut g: Vec<char> = vec!['_'];
        push_all(&mut g, &base);
        assert(g@ =~= seq!['_'] + base@);
        g
    } else {
        base
    };
    proof {
        lemma_name_shape(display_name@);
    }
    string_of(truncate_chars(&guarded))
}

/// Cutting a name to the byte limit and dropping trailing underscores.
fn truncate_chars(name: &Vec<char>) -> (r: Vec<char>)
    ensures
        r@ == truncated(name@),
{
    let (keep, _used) = fit_count_exec(name, MAX_PRINTER_NAME_LENGTH);
    proof {
        lemma_fit_count(name@, MAX_PRINTER_NAME_LENGTH as int);
    }
    let cut = slice_of(name, 0, keep);
    assert(cut@ =~= byte_prefix(name@, MAX_PRINTER_NAME_LENGTH as int));
    trim_char_end_vec(&cut, '_')
}

/// Cuts a name to the length PAPPL accepts and drops trailing underscores.
/// The cut must not fall inside a character, as `String::truncate` requires.
pub fn truncate_name(name: String) -> (r: String)
    requires
        cut_ok(name@, MAX_PRINTER_NAME_LENGTH as int),
    ensures
        r@ == truncated(name@),
        utf8_len(name@) <= MAX_PRINTER_NAME_LENGTH ==> r@ == trim_char_end(name@, '_'),
{
    proof {
        lemma_fit_count(name@, MAX_PRINTER_NAME_LENGTH as int);
        if utf8_len(name@) <= MAX_PRINTER_NAME_LENGTH {
            assert(byte_prefix(name@, MAX_PRINTER_NAME_LENGTH as int) =~= name@);
        }
    }
    string_of(truncate_chars(&chars_of(name.as_str())))
}

/// Every queue name the normalization produces is well formed.
pub proof fn lemma_name_shape(d: Seq<char>)
    ensures
        well_formed_name(printer_name_spec(d)),
{
    let c = collapse(d);
    lemma_collapse(d);
    let lead = crate::text::leading_count(c, '_');
    crate::text::lemma_leading_count(c, '_');
    let t0 = crate::text::trim_char_start(c, '_');
    assert(name_charset(t0));
    assert(no_double_underscore(t0)) by {
        assert forall|i: int| 0 <= i < t0.len() - 1 implies !(#[trigger] t0[i] == '_' && t0[i
            + 1] == '_') by {
            assert(t0[i] == c[i + lead]);
            assert(t0[i + 1] == c[i + 1 + lead]);
        }
    }
    assert(t0.len() > 0 ==> t0[0] != '_');
    let t = trim_char(c, '_');
    lemma_trailing_count(t0, '_');
    assert(t =~= t0.take(t0.len() - trailing_count(t0, '_')));
    assert(name_charset(t));
    assert(no_double_underscore(t));
    assert(t.len() > 0 ==> t[0] != '_' && t.last() != '_');
    let o = or_printer(t);
    assert(o.len() > 0 && o[0] != '_' && o.last() != '_' && name_charset(o)
        && no_double_underscore(o));
    let g = digit_guarded(o);
    assert(g.len() > 0 && g.last() != '_' && name_charset(g) && no_double_underscore(g)
        && !is_digit(g[0]) && (g[0] == '_' ==> g.len() >= 2 && is_digit(g[1]))) by {
        if o.len() > 0 && is_digit(o[0]) {
            assert(g =~= seq!['_'] + o);
            assert(g[1] == o[0]);
            assert forall|i: int| 0 <= i < g.len() - 1 implies !(#[trigger] g[i] == '_' && g[i
                + 1] == '_') by {
                if i > 0 {
                    assert(g[i] == o[i - 1]);
                    assert(g[i + 1] == o[i]);
                }
            }
        }
    }
    lemma_charset_ascii(g);
    lemma_ascii_widths(g, MAX_PRINTER_NAME_LENGTH as int);
    let p = byte_prefix(g, MAX_PRINTER_NAME_LENGTH as int);
    assert(p.len() >= 1 && p.len() <= MAX_PRINTER_NAME_LENGTH);
    assert(p[0] == g[0]);
    assert(p.len() >= 2 ==> p[1] == g[1]);
    assert(name_charset(p));
    assert(no_double_underscore(p));
    let r = trim_char_end(p, '_');
    lemma_trailing_count(p, '_');
    assert(trailing_count(p, '_') < p.len()) by {
        if g[0] != '_' {
            assert(p[0] != '_');
        } else {
            assert(p[1] != '_');
        }
    }
    if g[0] == '_' {
        assert(trailing_count(p, '_') <= p.len() - 2) by {
            assert(p[1] != '_');
        }
    }
    assert(r.len() >= 1);
    assert(r[0] == g[0]);
    assert(r.len() >= 2 ==> r[1] == g[1]);
    assert(name_charset(r));
    assert(no_double_underscore(r));
    assert(r == printer_name_spec(d));
}

pub proof fn lemma_collapse_fixed(s: Seq<char>)
    requires
        name_charset(s),
        no_double_underscore(s),
    ensures
        collapse(s) == s,
    decreases s.len(),
{
    if s.len() > 0 {
        let rest = s.drop_last();
        assert(name_charset(rest));
        assert(no_double_underscore(rest)) by {
            assert forall|i: int| 0 <= i < rest.len() - 1 implies !(#[trigger] rest[i] == '_'
                && rest[i + 1] == '_') by {
                assert(rest[i] == s[i] && rest[i + 1] == s[i + 1]);
            }
        }
        lemma_collapse_fixed(rest);
        assert(is_ascii_alnum(s.last()) || s.last() == '_');
        if s.last() == '_' && rest.len() > 0 {
            assert(rest.last() == s[s.len() - 2]);
            assert(!(s[s.len() - 2] == '_' && s[s.len() - 1] == '_'));
        }
        assert(rest.push(s.last()) =~= s);
    }
}

/// Normalizing a queue name again changes nothing: a name the normalization
/// produced is its own normal form.
pub proof fn lemma_normalization_is_stable(display_name: Seq<char>)
    ensures
        printer_name_spec(printer_name_spec(display_name)) == printer_name_spec(display_name),
{
    let y = printer_name_spec(display_name);
    lemma_name_shape(display_name);
    lemma_well_formed_is_normal(y);
}

/// A well-formed queue name is its own normal form.
pub proof fn lemma_well_formed_is_normal(y: Seq<char>)
    requires
        well_formed_name(y),
    ensures
        printer_name_spec(y) == y,
{
    lemma_collapse_fixed(y);
    let lead = crate::text::leading_count(y, '_');
    crate::text::lemma_leading_count(y, '_');
    let t0 = crate::text::trim_char_start(y, '_');
    if y[0] == '_' {
        assert(y[1] != '_');
        assert(crate::text::leading_count(y.drop_first(), '_') == 0);
        assert(lead == 1);
    } else {
        assert(lead == 0);
        assert(t0 =~= y);
    }
    lemma_trailing_count(t0, '_');
    assert(t0.len() > 0);
    assert(t0.last() == y.last());
    assert(trailing_count(t0, '_') == 0);
    let t = trim_char(y, '_');
    assert(t =~= t0);
    assert(or_printer(t) == t);
    let g = digit_guarded(t);
    if y[0] == '_' {
        assert(t[0] == y[1]);
        assert(g =~= y);
    } else {
        assert(g =~= y);
    }
    lemma_charset_ascii(y);
    lemma_ascii_widths(y, MAX_PRINTER_NAME_LENGTH as int);
    assert(byte_prefix(y, MAX_PRINTER_NAME_LENGTH as int) =~= y);
    lemma_trailing_count(y, '_');
    assert(trailing_count(y, '_') == 0);
    assert(trim_char_end(y, '_') =~= y);
}

// ------------------------------------------------------------ unique names

/// The suffix that tells the `k`-th try apart: `_` and the number.
pub open spec fn suffix_of(k: nat) -> Seq<char> {
    seq!['_'] + decimal(k)
}

/// How much of the base fits before the suffix of the `k`-th try.
pub open spec fn room_for(k: nat) -> int {
    MAX_PRINTER_NAME_LENGTH - suffix_of(k).len()
}

/// The `k`-th try: the base, cut so the whole name fits, then the suffix.
pub open spec fn suffixed(base: Seq<char>, k: nat) -> Seq<char> {
    byte_prefix(base, room_for(k)) + suffix_of(k)
}

/// The first free suffixed name from the `k`-th try up to the last.
pub open spec fn first_free(printers: Seq<ConfiguredPrinterView>, base: Seq<char>, k: int) -> Option<
    Seq<char>,
>
    decreases 51 - k,
{
    if k < 2 || k > MAX_NAME_ATTEMPTS {
        None
    } else if !name_taken(printers, suffixed(base, k as nat)) {
        Some(suffixed(base, k as nat))
    } else {
        first_free(printers, base, k + 1)
    }
}

/// The name a new printer gets: the base when it is free, otherwise the
/// first free suffixed try, and none when every try is taken.
pub open spec fn unique_name_spec(printers: Seq<ConfiguredPrinterView>, base: Seq<char>) -> Option<
    Seq<char>,
> {
    if !name_taken(printers, base) {
        Some(base)
    } else {
        first_free(printers, base, 2)
    }
}

/// Appends a suffix, trimming the base so the whole name still fits.
pub fn truncate_name_with_suffix(base: &str, suffix: u32) -> (r: String)
    requires
        cut_ok(base@, room_for(suffix as nat)),
    ensures
        r@ == suffixed(base@, suffix as nat),
{
    let digits = decimal_exec(suffix as u64);
    let mut tail: Vec<char> = vec!['_'];
    push_all(&mut tail, &digits);
    assert(tail@ =~= suffix_of(suffix as nat));
    proof {
        lemma_decimal_digits(suffix as nat);
        assert(decimal(suffix as nat).len() <= 10) by {
            reveal_with_fuel(pow10, 11);
            lemma_decimal_len_bound(suffix as nat, 9);
        }
    }
    let room = MAX_PRINTER_NAME_LENGTH - tail.len();
    let chars = chars_of(base);
    let (keep, _used) = fit_count_exec(&chars, room);
    proof {
        lemma_fit_count(base@, room as int);
    }
    let mut name = slice_of(&chars, 0, keep);
    let ghost cut = name@;
    push_all(&mut name, &tail);
    string_of(name)
}

/// A number below ten to the power `k + 1` has at most `k + 1` digits.
pub proof fn lemma_decimal_len_bound(n: nat, k: nat)
    requires
        n < pow10(k + 1),
    ensures
        decimal(n).len() <= k + 1,
    decreases k,
{
    if n >= 10 {
        assert(k >= 1) by {
            if k == 0 {
                assert(pow10(1) == 10 * pow10(0));
            }
        }
        assert(pow10(k + 1) == 10 * pow10(k));
        assert(n / 10 < pow10(k)) by (nonlinear_arith)
            requires
                n < 10 * pow10(k),
        ;
        lemma_decimal_len_bound(n / 10, (k - 1) as nat);
    }
}

pub open spec fn pow10(k: nat) -> nat
    decreases k,
{
    if k == 0 {
        1
    } else {
        10 * pow10((k - 1) as nat)
    }
}

/// Whether the tries from the `k`-th on can cut the base where they need to.
pub open spec fn suffix_cuts_ok(base: Seq<char>) -> bool {
    cut_ok(base, room_for(2)) && cut_ok(base, room_for(10))
}

pub proof fn lemma_suffix_lengths(k: nat)
    requires
        2 <= k <= MAX_NAME_ATTEMPTS,
    ensures
        k < 10 ==> suffix_of(k).len() == 2 && room_for(k) == room_for(2),
        k >= 10 ==> suffix_of(k).len() == 3 && room_for(k) == room_for(10),
        is_ascii(suffix_of(k)),
{
    lemma_decimal_digits(k);
    lemma_decimal_digits(2);
    lemma_decimal_digits(10);
    assert forall|i: int| 0 <= i < suffix_of(k).len() implies (suffix_of(k)[i] as u32) < 0x80 by {
        if i > 0 {
            assert(suffix_of(k)[i] == decimal(k)[i - 1]);
            assert(is_digit(decimal(k)[i - 1]));
        }
    }
}

/// Returns a name not already used in this Printer Application: the base
/// itself when it is free, otherwise the base with the first free suffix
/// from `_2` to `_50`, cut so the name still fits.
pub fn unique_printer_name(base: &str, printers: &Vec<ConfiguredPrinter>) -> (r: Option<String>)
    requires
        name_taken(printers_view(printers@), base@) ==> suffix_cuts_ok(base@),
    ensures
        match r {
            Some(name) => unique_name_spec(printers_view(printers@), base@) == Some(name@),
            None => unique_name_spec(printers_view(printers@), base@) is None,
        },
        r matches Some(name) ==> !name_taken(printers_view(printers@), name@),
        r matches Some(name) ==> (utf8_len(base@) <= MAX_PRINTER_NAME_LENGTH ==> utf8_len(name@)
            <= MAX_PRINTER_NAME_LENGTH),
{
    proof {
        lemma_unique_name(printers_view(printers@), base@);
    }
    if position_by_name(printers, base).is_none() {
        return Some(string_of(chars_of(base)));
    }
    let mut suffix: u32 = 2;
    while suffix <= MAX_NAME_ATTEMPTS
        invariant
            2 <= suffix <= MAX_NAME_ATTEMPTS + 1,
            suffix_cuts_ok(base@),
            name_taken(printers_view(printers@), base@),
            unique_name_spec(printers_view(printers@), base@) matches Some(n) ==> !name_taken(
                printers_view(printers@),
                n,
            ) && (utf8_len(base@) <= MAX_PRINTER_NAME_LENGTH ==> utf8_len(n)
                <= MAX_PRINTER_NAME_LENGTH),
            unique_name_spec(printers_view(printers@), base@) == first_free(
                printers_view(printers@),
                base@,
                suffix as int,
            ),
        decreases MAX_NAME_ATTEMPTS + 1 - suffix,
    {
        proof {
            lemma_suffix_lengths(suffix as nat);
        }
        let candidate = truncate_name_with_suffix(base, suffix);
        if position_by_name(printers, candidate.as_str()).is_none() {
            return Some(candidate);
        }
        suffix += 1;
    }
    None
}

/// What `unique_printer_name` promises of its answer: a name no printer of
/// the application has, the base itself when that is free, and a name
/// within the length limit whenever the base is within it; no answer only
/// when the base and every suffixed try are taken.
pub proof fn lemma_unique_name(printers: Seq<ConfiguredPrinterView>, base: Seq<char>)
    requires
        name_taken(printers, base) ==> suffix_cuts_ok(base),
    ensures
        unique_name_spec(printers, base) matches Some(n) ==> !name_taken(printers, n),
        !name_taken(printers, base) ==> unique_name_spec(printers, base) == Some(base),
        unique_name_spec(printers, base) matches Some(n) ==> (utf8_len(base)
            <= MAX_PRINTER_NAME_LENGTH ==> utf8_len(n) <= MAX_PRINTER_NAME_LENGTH),
        unique_name_spec(printers, base) is None ==> name_taken(printers, base) && forall|k: nat|
            2 <= k <= MAX_NAME_ATTEMPTS ==> name_taken(printers, #[trigger] suffixed(base, k)),
{
    if name_taken(printers, base) {
        lemma_first_free(printers, base, 2);
    }
}

pub proof fn lemma_first_free(printers: Seq<ConfiguredPrinterView>, base: Seq<char>, k: int)
    requires
        2 <= k,
    ensures
        first_free(printers, base, k) matches Some(n) ==> !name_taken(printers, n) && utf8_len(n)
            <= MAX_PRINTER_NAME_LENGTH,
        first_free(printers, base, k) is None ==> forall|j: nat|
            k <= j <= MAX_NAME_ATTEMPTS ==> name_taken(printers, #[trigger] suffixed(base, j)),
    decreases 51 - k,
{
    if k <= MAX_NAME_ATTEMPTS {
        let n = suffixed(base, k as nat);
        lemma_suffix_lengths(k as nat);
        lemma_fit_count(base, room_for(k as nat));
        lemma_ascii_widths(suffix_of(k as nat), 0);
        lemma_utf8_len_concat(byte_prefix(base, room_for(k as nat)), suffix_of(k as nat));
        lemma_first_free(printers, base, k + 1);
        if first_free(printers, base, k) is None {
            assert forall|j: nat| k <= j <= MAX_NAME_ATTEMPTS implies name_taken(
                printers,
                #[trigger] suffixed(base, j),
            ) by {
                if j > k {
                } else {
                    assert(j == k);
                }
            }
        }
    }
}

} // verus!
