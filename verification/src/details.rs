//! The printer details page: how supplies are laid out and labelled, and
//! how paper sizes and sides read.

use vstd::prelude::*;
use i18n_embed::fluent::FluentLanguageLoader;
use crate::localize::localized;
use crate::text::{
    chars_of, decimal, decimal_exec, eq_vec, push_all, push_str, rfind, slice_of, split_on,
    split_on_exec, string_of, upper, upper_vec, ends_with, ends_with_exec, last_occurrence,
};

verus! {

/// How many supplies stand side by side in one row.
pub const SUPPLY_COLUMNS: usize = 2;

/// How many rows `supplies` supplies take, two to a row.
pub fn supply_rows(supplies: usize) -> (r: usize)
    ensures
        r == (supplies + SUPPLY_COLUMNS - 1) / SUPPLY_COLUMNS as int,
        r * SUPPLY_COLUMNS >= supplies,
        r * SUPPLY_COLUMNS < supplies + SUPPLY_COLUMNS,
{
    supplies / SUPPLY_COLUMNS + if supplies % SUPPLY_COLUMNS == 0 { 0 } else { 1 }
}

/// Where the `k`-th row of the supply grid ends.
pub open spec fn row_end(k: int, supplies: int) -> int {
    if (k + 1) * SUPPLY_COLUMNS <= supplies {
        (k + 1) * SUPPLY_COLUMNS
    } else {
        supplies
    }
}

/// The rows of the supply grid, as ranges of the supplies in the order the
/// printer reported them: each row holds the next two, the last the rest.
pub fn supply_row_ranges(supplies: usize) -> (r: Vec<(usize, usize)>)
    ensures
        r.len() == (supplies + SUPPLY_COLUMNS - 1) / SUPPLY_COLUMNS as int,
        forall|k: int|
            0 <= k < r.len() ==> (#[trigger] r[k]).0 == k * SUPPLY_COLUMNS && r[k].1 == row_end(
                k,
                supplies as int,
            ),
{
    let count = supply_rows(supplies);
    let mut rows: Vec<(usize, usize)> = Vec::new();
    let mut i: usize = 0;
    while i < count
        invariant
            i <= count,
            count == (supplies + SUPPLY_COLUMNS - 1) / SUPPLY_COLUMNS as int,
            count * SUPPLY_COLUMNS < supplies + SUPPLY_COLUMNS,
            rows.len() == i,
            forall|k: int|
                0 <= k < rows.len() ==> (#[trigger] rows[k]).0 == k * SUPPLY_COLUMNS && rows[k].1
                    == row_end(k, supplies as int),
        decreases count - i,
    {
        let start = i * SUPPLY_COLUMNS;
        assert(start < supplies);
        let end = if supplies - start >= SUPPLY_COLUMNS { start + SUPPLY_COLUMNS } else { supplies };
        let ghost before = rows@;
        rows.push((start, end));
        assert forall|k: int| 0 <= k < rows.len() implies (#[trigger] rows[k]).0 == k
            * SUPPLY_COLUMNS && rows[k].1 == row_end(k, supplies as int) by {
            if k < i {
                assert(rows[k] == before[k]);
            }
        }
        i += 1;
    }
    rows
}

/// How a known supply level is written: whole percentages with one
/// decimal, except a full supply, which is written as `100%`.
pub open spec fn percentage_text_spec(level: u8) -> Seq<char> {
    if level >= 100 {
        "100%"@
    } else {
        decimal(level as nat) + ".0%"@
    }
}

/// The text of a supply level, or none when the level is not known.
pub fn percentage_text(level: Option<u8>) -> (r: Option<String>)
    ensures
        match level {
            Some(l) => r matches Some(t) && t@ == percentage_text_spec(l),
            None => r is None,
        },
{
    match level {
        Some(l) => {
            if l >= 100 {
                Some(string_of(chars_of("100%")))
            } else {
                let mut out = decimal_exec(l as u64);
                push_str(&mut out, ".0%");
                Some(string_of(out))
            }
        },
        None => None,
    }
}

/// The identifier of the message that words an unknown supply level.
pub fn supply_level_unknown_message() -> (r: &'static str)
    ensures
        r@ == "supply-level-unknown"@,
{
    "supply-level-unknown"
}

/// The label of a supply level; an unknown level is worded by the message
/// [`supply_level_unknown_message`] names.
pub fn percentage_label(level: Option<u8>, loader: &FluentLanguageLoader) -> (r: String)
    ensures
        level matches Some(l) ==> r@ == percentage_text_spec(l),
{
    match percentage_text(level) {
        Some(text) => text,
        None => localized(loader, supply_level_unknown_message()),
    }
}

/// The colour of a supply, as the printer reports it.
#[derive(Clone, Copy, Debug, PartialEq, Eq, Structural)]
pub struct SupplyRgb {
    pub red: u8,
    pub green: u8,
    pub blue: u8,
}

/// One supply of a printer.
#[derive(Clone, Debug, PartialEq, Eq)]
pub struct SupplyLevel {
    pub name: String,
    pub level_percent: Option<u8>,
    pub colors: Vec<SupplyRgb>,
}

/// The message that names a supply of one well-known colour.
pub open spec fn color_message_spec(c: SupplyRgb) -> Option<&'static str> {
    if c.red == 0x00 && c.green == 0x00 && c.blue == 0x00 {
        Some("supply-color-black")
    } else if c.red == 0x00 && c.green == 0xFF && c.blue == 0xFF {
        Some("supply-color-cyan")
    } else if c.red == 0xFF && c.green == 0x00 && c.blue == 0xFF {
        Some("supply-color-magenta")
    } else if c.red == 0xFF && c.green == 0xFF && c.blue == 0x00 {
        Some("supply-color-yellow")
    } else if c.red == 0xE0 && c.green == 0xFF && c.blue == 0xFF {
        Some("supply-color-light-cyan")
    } else if c.red == 0xFF && c.green == 0xE0 && c.blue == 0xFF {
        Some("supply-color-light-magenta")
    } else if c.red == 0x80 && c.green == 0x80 && c.blue == 0x80 {
        Some("supply-color-gray")
    } else if c.red == 0xFF && c.green == 0x00 && c.blue == 0x00 {
        Some("supply-color-red")
    } else if c.red == 0x00 && c.green == 0xFF && c.blue == 0x00 {
        Some("supply-color-green")
    } else if c.red == 0x00 && c.green == 0x00 && c.blue == 0xFF {
        Some("supply-color-blue")
    } else if c.red == 0xFF && c.green == 0xA5 && c.blue == 0x00 {
        Some("supply-color-orange")
    } else if c.red == 0xEE && c.green == 0x82 && c.blue == 0xEE {
        Some("supply-color-violet")
    } else if c.red == 0xFF && c.green == 0xFF && c.blue == 0xFF {
        Some("supply-color-white")
    } else {
        None
    }
}

/// The colour messages are distinct texts.
proof fn color_messages_distinct()
    ensures
        "supply-color-black"@ != "supply-color-cyan"@,
        "supply-color-black"@ != "supply-color-magenta"@,
        "supply-color-black"@ != "supply-color-yellow"@,
        "supply-color-black"@ != "supply-color-light-cyan"@,
        "supply-color-black"@ != "supply-color-light-magenta"@,
        "supply-color-black"@ != "supply-color-gray"@,
        "supply-color-black"@ != "supply-color-red"@,
        "supply-color-black"@ != "supply-color-green"@,
        "supply-color-black"@ != "supply-color-blue"@,
        "supply-color-black"@ != "supply-color-orange"@,
        "supply-color-black"@ != "supply-color-violet"@,
        "supply-color-black"@ != "supply-color-white"@,
        "supply-color-cyan"@ != "supply-color-magenta"@,
        "supply-color-cyan"@ != "supply-color-yellow"@,
        "supply-color-cyan"@ != "supply-color-light-cyan"@,
        "supply-color-cyan"@ != "supply-color-light-magenta"@,
        "supply-color-cyan"@ != "supply-color-gray"@,
        "supply-color-cyan"@ != "supply-color-red"@,
        "supply-color-cyan"@ != "supply-color-green"@,
        "supply-color-cyan"@ != "supply-color-blue"@,
        "supply-color-cyan"@ != "supply-color-orange"@,
        "supply-color-cyan"@ != "supply-color-violet"@,
        "supply-color-cyan"@ != "supply-color-white"@,
        "supply-color-magenta"@ != "supply-color-yellow"@,
        "supply-color-magenta"@ != "supply-color-light-cyan"@,
        "supply-color-magenta"@ != "supply-color-light-magenta"@,
        "supply-color-magenta"@ != "supply-color-gray"@,
        "supply-color-magenta"@ != "supply-color-red"@,
        "supply-color-magenta"@ != "supply-color-green"@,
        "supply-color-magenta"@ != "supply-color-blue"@,
        "supply-color-magenta"@ != "supply-color-orange"@,
        "supply-color-magenta"@ != "supply-color-violet"@,
        "supply-color-magenta"@ != "supply-color-white"@,
        "supply-color-yellow"@ != "supply-color-light-cyan"@,
        "supply-color-yellow"@ != "supply-color-light-magenta"@,
        "supply-color-yellow"@ != "supply-color-gray"@,
        "supply-color-yellow"@ != "supply-color-red"@,
        "supply-color-yellow"@ != "supply-color-green"@,
        "supply-color-yellow"@ != "supply-color-blue"@,
        "supply-color-yellow"@ != "supply-color-orange"@,
        "supply-color-yellow"@ != "supply-color-violet"@,
        "supply-color-yellow"@ != "supply-color-white"@,
        "supply-color-light-cyan"@ != "supply-color-light-magenta"@,
        "supply-color-light-cyan"@ != "supply-color-gray"@,
        "supply-color-light-cyan"@ != "supply-color-red"@,
        "supply-color-light-cyan"@ != "supply-color-green"@,
        "supply-color-light-cyan"@ != "supply-color-blue"@,
        "supply-color-light-cyan"@ != "supply-color-orange"@,
        "supply-color-light-cyan"@ != "supply-color-violet"@,
        "supply-color-light-cyan"@ != "supply-color-white"@,
        "supply-color-light-magenta"@ != "supply-color-gray"@,
        "supply-color-light-magenta"@ != "supply-color-red"@,
        "supply-color-light-magenta"@ != "supply-color-green"@,
        "supply-color-light-magenta"@ != "supply-color-blue"@,
        "supply-color-light-magenta"@ != "supply-color-orange"@,
        "supply-color-light-magenta"@ != "supply-color-violet"@,
        "supply-color-light-magenta"@ != "supply-color-white"@,
        "supply-color-gray"@ != "supply-color-red"@,
        "supply-color-gray"@ != "supply-color-green"@,
        "supply-color-gray"@ != "supply-color-blue"@,
        "supply-color-gray"@ != "supply-color-orange"@,
        "supply-color-gray"@ != "supply-color-violet"@,
        "supply-color-gray"@ != "supply-color-white"@,
        "supply-color-red"@ != "supply-color-green"@,
        "supply-color-red"@ != "supply-color-blue"@,
        "supply-color-red"@ != "supply-color-orange"@,
        "supply-color-red"@ != "supply-color-violet"@,
        "supply-color-red"@ != "supply-color-white"@,
        "supply-color-green"@ != "supply-color-blue"@,
        "supply-color-green"@ != "supply-color-orange"@,
        "supply-color-green"@ != "supply-color-violet"@,
        "supply-color-green"@ != "supply-color-white"@,
        "supply-color-blue"@ != "supply-color-orange"@,
        "supply-color-blue"@ != "supply-color-violet"@,
        "supply-color-blue"@ != "supply-color-white"@,
        "supply-color-orange"@ != "supply-color-violet"@,
        "supply-color-orange"@ != "supply-color-white"@,
        "supply-color-violet"@ != "supply-color-white"@,
{
    reveal_strlit("supply-color-black");
    reveal_strlit("supply-color-cyan");
    reveal_strlit("supply-color-magenta");
    reveal_strlit("supply-color-yellow");
    reveal_strlit("supply-color-light-cyan");
    reveal_strlit("supply-color-light-magenta");
    reveal_strlit("supply-color-gray");
    reveal_strlit("supply-color-red");
    reveal_strlit("supply-color-green");
    reveal_strlit("supply-color-blue");
    reveal_strlit("supply-color-orange");
    reveal_strlit("supply-color-violet");
    reveal_strlit("supply-color-white");
    assert("supply-color-black"@[13] != "supply-color-cyan"@[13]);
    assert("supply-color-black"@[13] != "supply-color-magenta"@[13]);
    assert("supply-color-black"@[13] != "supply-color-yellow"@[13]);
    assert("supply-color-black"@[13] != "supply-color-light-cyan"@[13]);
    assert("supply-color-black"@[13] != "supply-color-light-magenta"@[13]);
    assert("supply-color-black"@[13] != "supply-color-gray"@[13]);
    assert("supply-color-black"@[13] != "supply-color-red"@[13]);
    assert("supply-color-black"@[13] != "supply-color-green"@[13]);
    assert("supply-color-black"@[15] != "supply-color-blue"@[15]);
    assert("supply-color-black"@[13] != "supply-color-orange"@[13]);
    assert("supply-color-black"@[13] != "supply-color-violet"@[13]);
    assert("supply-color-black"@[13] != "supply-color-white"@[13]);
    assert("supply-color-cyan"@[13] != "supply-color-magenta"@[13]);
    assert("supply-color-cyan"@[13] != "supply-color-yellow"@[13]);
    assert("supply-color-cyan"@[13] != "supply-color-light-cyan"@[13]);
    assert("supply-color-cyan"@[13] != "supply-color-light-magenta"@[13]);
    assert("supply-color-cyan"@[13] != "supply-color-gray"@[13]);
    assert("supply-color-cyan"@[13] != "supply-color-red"@[13]);
    assert("supply-color-cyan"@[13] != "supply-color-green"@[13]);
    assert("supply-color-cyan"@[13] != "supply-color-blue"@[13]);
    assert("supply-color-cyan"@[13] != "supply-color-orange"@[13]);
    assert("supply-color-cyan"@[13] != "supply-color-violet"@[13]);
    assert("supply-color-cyan"@[13] != "supply-color-white"@[13]);
    assert("supply-color-magenta"@[13] != "supply-color-yellow"@[13]);
    assert("supply-color-magenta"@[13] != "supply-color-light-cyan"@[13]);
    assert("supply-color-magenta"@[13] != "supply-color-light-magenta"@[13]);
    assert("supply-color-magenta"@[13] != "supply-color-gray"@[13]);
    assert("supply-color-magenta"@[13] != "supply-color-red"@[13]);
    assert("supply-color-magenta"@[13] != "supply-color-green"@[13]);
    assert("supply-color-magenta"@[13] != "supply-color-blue"@[13]);
    assert("supply-color-magenta"@[13] != "supply-color-orange"@[13]);
    assert("supply-color-magenta"@[13] != "supply-color-violet"@[13]);
    assert("supply-color-magenta"@[13] != "supply-color-white"@[13]);
    assert("supply-color-yellow"@[13] != "supply-color-light-cyan"@[13]);
    assert("supply-color-yellow"@[13] != "supply-color-light-magenta"@[13]);
    assert("supply-color-yellow"@[13] != "supply-color-gray"@[13]);
    assert("supply-color-yellow"@[13] != "supply-color-red"@[13]);
    assert("supply-color-yellow"@[13] != "supply-color-green"@[13]);
    assert("supply-color-yellow"@[13] != "supply-color-blue"@[13]);
    assert("supply-color-yellow"@[13] != "supply-color-orange"@[13]);
    assert("supply-color-yellow"@[13] != "supply-color-violet"@[13]);
    assert("supply-color-yellow"@[13] != "supply-color-white"@[13]);
    assert("supply-color-light-cyan"@[19] != "supply-color-light-magenta"@[19]);
    assert("supply-color-light-cyan"@[13] != "supply-color-gray"@[13]);
    assert("supply-color-light-cyan"@[13] != "supply-color-red"@[13]);
    assert("supply-color-light-cyan"@[13] != "supply-color-green"@[13]);
    assert("supply-color-light-cyan"@[13] != "supply-color-blue"@[13]);
    assert("supply-color-light-cyan"@[13] != "supply-color-orange"@[13]);
    assert("supply-color-light-cyan"@[13] != "supply-color-violet"@[13]);
    assert("supply-color-light-cyan"@[13] != "supply-color-white"@[13]);
    assert("supply-color-light-magenta"@[13] != "supply-color-gray"@[13]);
    assert("supply-color-light-magenta"@[13] != "supply-color-red"@[13]);
    assert("supply-color-light-magenta"@[13] != "supply-color-green"@[13]);
    assert("supply-color-light-magenta"@[13] != "supply-color-blue"@[13]);
    assert("supply-color-light-magenta"@[13] != "supply-color-orange"@[13]);
    assert("supply-color-light-magenta"@[13] != "supply-color-violet"@[13]);
    assert("supply-color-light-magenta"@[13] != "supply-color-white"@[13]);
    assert("supply-color-gray"@[13] != "supply-color-red"@[13]);
    assert("supply-color-gray"@[15] != "supply-color-green"@[15]);
    assert("supply-color-gray"@[13] != "supply-color-blue"@[13]);
    assert("supply-color-gray"@[13] != "supply-color-orange"@[13]);
    assert("supply-color-gray"@[13] != "supply-color-violet"@[13]);
    assert("supply-color-gray"@[13] != "supply-color-white"@[13]);
    assert("supply-color-red"@[13] != "supply-color-green"@[13]);
    assert("supply-color-red"@[13] != "supply-color-blue"@[13]);
    assert("supply-color-red"@[13] != "supply-color-orange"@[13]);
    assert("supply-color-red"@[13] != "supply-color-violet"@[13]);
    assert("supply-color-red"@[13] != "supply-color-white"@[13]);
    assert("supply-color-green"@[13] != "supply-color-blue"@[13]);
    assert("supply-color-green"@[13] != "supply-color-orange"@[13]);
    assert("supply-color-green"@[13] != "supply-color-violet"@[13]);
    assert("supply-color-green"@[13] != "supply-color-white"@[13]);
    assert("supply-color-blue"@[13] != "supply-color-orange"@[13]);
    assert("supply-color-blue"@[13] != "supply-color-violet"@[13]);
    assert("supply-color-blue"@[13] != "supply-color-white"@[13]);
    assert("supply-color-orange"@[13] != "supply-color-violet"@[13]);
    assert("supply-color-orange"@[13] != "supply-color-white"@[13]);
    assert("supply-color-violet"@[13] != "supply-color-white"@[13]);
}

/// Each well-known colour has its own name: two colours named alike are
/// the same colour.
pub proof fn colour_names_differ(first: SupplyRgb, second: SupplyRgb)
    requires
        color_message_spec(first) is Some,
        color_message_spec(second) is Some,
        color_message_spec(first)->0@ == color_message_spec(second)->0@,
    ensures
        first == second,
{
    color_messages_distinct();
}

/// The message that names a supply of one well-known colour.
pub fn known_supply_color_message(c: SupplyRgb) -> (r: Option<&'static str>)
    ensures
        r == color_message_spec(c),
{
    let (red, green, blue) = (c.red, c.green, c.blue);
    if red == 0x00 && green == 0x00 && blue == 0x00 {
        Some("supply-color-black")
    } else if red == 0x00 && green == 0xFF && blue == 0xFF {
        Some("supply-color-cyan")
    } else if red == 0xFF && green == 0x00 && blue == 0xFF {
        Some("supply-color-magenta")
    } else if red == 0xFF && green == 0xFF && blue == 0x00 {
        Some("supply-color-yellow")
    } else if red == 0xE0 && green == 0xFF && blue == 0xFF {
        Some("supply-color-light-cyan")
    } else if red == 0xFF && green == 0xE0 && blue == 0xFF {
        Some("supply-color-light-magenta")
    } else if red == 0x80 && green == 0x80 && blue == 0x80 {
        Some("supply-color-gray")
    } else if red == 0xFF && green == 0x00 && blue == 0x00 {
        Some("supply-color-red")
    } else if red == 0x00 && green == 0xFF && blue == 0x00 {
        Some("supply-color-green")
    } else if red == 0x00 && green == 0x00 && blue == 0xFF {
        Some("supply-color-blue")
    } else if red == 0xFF && green == 0xA5 && blue == 0x00 {
        Some("supply-color-orange")
    } else if red == 0xEE && green == 0x82 && blue == 0xEE {
        Some("supply-color-violet")
    } else if red == 0xFF && green == 0xFF && blue == 0xFF {
        Some("supply-color-white")
    } else {
        None
    }
}

/// The message a supply's name is replaced by: the name of its colour when
/// it has exactly one well-known colour, `supply-unnamed` when it reported
/// no name; none when its own name is shown.
pub open spec fn supply_name_message_spec(name: Seq<char>, colors: Seq<SupplyRgb>) -> Option<
    &'static str,
> {
    if colors.len() == 1 && color_message_spec(colors[0]) is Some {
        color_message_spec(colors[0])
    } else if name.len() == 0 {
        Some("supply-unnamed")
    } else {
        None
    }
}

pub fn supply_name_message(supply: &SupplyLevel) -> (r: Option<&'static str>)
    ensures
        r == supply_name_message_spec(supply.name@, supply.colors@),
{
    if supply.colors.len() == 1 {
        let known = known_supply_color_message(supply.colors[0]);
        if known.is_some() {
            return known;
        }
    }
    if supply.name.as_str().unicode_len() == 0 {
        Some("supply-unnamed")
    } else {
        None
    }
}

/// What a supply is called on the page.
pub fn supply_name(supply: &SupplyLevel, loader: &FluentLanguageLoader) -> (r: String)
    ensures
        supply_name_message_spec(supply.name@, supply.colors@) is None ==> r@ == supply.name@,
{
    match supply_name_message(supply) {
        Some(message) => localized(loader, message),
        None => string_of(chars_of(supply.name.as_str())),
    }
}

// ------------------------------------------------------------ print options

/// Which value of a list is selected: the default where the list has it,
/// otherwise the fallback, never past the last value.
pub open spec fn selected_index_spec(values: Seq<Seq<char>>, default: Option<Seq<char>>, fallback: int) -> int {
    let wanted = match default {
        Some(d) => match first_equal(values, d) {
            Some(i) => i,
            None => fallback,
        },
        None => fallback,
    };
    let last = if values.len() == 0 { 0 } else { values.len() - 1 };
    if wanted < last { wanted } else { last }
}

pub open spec fn first_equal(values: Seq<Seq<char>>, v: Seq<char>) -> Option<int>
    decreases values.len(),
{
    if values.len() == 0 {
        None
    } else if values[0] == v {
        Some(0)
    } else {
        match first_equal(values.drop_first(), v) {
            Some(i) => Some(i + 1),
            None => None,
        }
    }
}

pub open spec fn strings_view(values: Seq<String>) -> Seq<Seq<char>> {
    values.map_values(|s: String| s@)
}

/// The position of the first value equal to `wanted`.
pub fn position_of(values: &Vec<String>, wanted: &str) -> (r: Option<usize>)
    ensures
        match r {
            Some(i) => first_equal(strings_view(values@), wanted@) == Some(i as int),
            None => first_equal(strings_view(values@), wanted@) is None,
        },
{
    let ghost all = strings_view(values@);
    let target = chars_of(wanted);
    let mut i: usize = 0;
    assert(all.skip(0) =~= all);
    while i < values.len()
        invariant
            i <= values.len(),
            all == strings_view(values@),
            target@ == wanted@,
            first_equal(all, wanted@) == match first_equal(all.skip(i as int), wanted@) {
                Some(k) => Some(k + i),
                None => None::<int>,
            },
        decreases values.len() - i,
    {
        proof {
            assert(all.skip(i as int).drop_first() =~= all.skip(i + 1));
            assert(all.skip(i as int)[0] == values@[i as int]@);
        }
        if eq_vec(&chars_of(values[i].as_str()), &target) {
            return Some(i);
        }
        i += 1;
    }
    assert(all.skip(i as int) =~= Seq::<Seq<char>>::empty());
    None
}

pub fn selected_option_idx(values: &Vec<String>, default: Option<&str>, fallback: usize) -> (r: usize)
    ensures
        r == selected_index_spec(
            strings_view(values@),
            match default {
                Some(d) => Some(d@),
                None => None,
            },
            fallback as int,
        ),
{
    let wanted = match default {
        Some(d) => match position_of(values, d) {
            Some(i) => i,
            None => fallback,
        },
        None => fallback,
    };
    let last = if values.len() == 0 { 0 } else { values.len() - 1 };
    if wanted < last { wanted } else { last }
}

/// The message that words a `sides` value.
pub open spec fn sides_message_spec(value: Seq<char>) -> Option<&'static str> {
    if value == "one-sided"@ {
        Some("print-one-side")
    } else if value == "two-sided-long-edge"@ || value == "two-sided-short-edge"@ {
        Some("print-both-sides")
    } else {
        None
    }
}

/// The sides values and their messages are distinct texts.
proof fn sides_texts_distinct()
    ensures
        "one-sided"@ != "two-sided-long-edge"@,
        "one-sided"@ != "two-sided-short-edge"@,
        "two-sided-long-edge"@ != "two-sided-short-edge"@,
{
    reveal_strlit("one-sided");
    reveal_strlit("two-sided-long-edge");
    reveal_strlit("two-sided-short-edge");
    assert("one-sided"@[0] != "two-sided-long-edge"@[0]);
    assert("one-sided"@[0] != "two-sided-short-edge"@[0]);
    assert("two-sided-long-edge"@[10] != "two-sided-short-edge"@[10]);
}

/// The sides messages are distinct texts.
proof fn sides_messages_distinct()
    ensures
        "print-one-side"@ != "print-both-sides"@,
{
    reveal_strlit("print-one-side");
    reveal_strlit("print-both-sides");
    assert("print-one-side"@[6] != "print-both-sides"@[6]);
}

/// One-sided printing reads as one side, either two-sided binding as both
/// sides, and no other value has wording.
pub proof fn sides_read_as_their_sides(value: Seq<char>)
    ensures
        (sides_message_spec(value) is Some && sides_message_spec(value)->0@ == "print-one-side"@) <==> value
            == "one-sided"@,
        (sides_message_spec(value) is Some && sides_message_spec(value)->0@ == "print-both-sides"@) <==> (value
            == "two-sided-long-edge"@ || value == "two-sided-short-edge"@),
        sides_message_spec(value) is None <==> !(value == "one-sided"@ || value == "two-sided-long-edge"@ || value
            == "two-sided-short-edge"@),
{
    sides_texts_distinct();
    sides_messages_distinct();
    reveal_strlit("print-one-side");
    reveal_strlit("print-both-sides");
}

pub fn sides_message(value: &str) -> (r: Option<&'static str>)
    ensures
        r == sides_message_spec(value@),
{
    if crate::text::str_eq(value, "one-sided") {
        Some("print-one-side")
    } else if crate::text::str_eq(value, "two-sided-long-edge") || crate::text::str_eq(
        value,
        "two-sided-short-edge",
    ) {
        Some("print-both-sides")
    } else {
        None
    }
}

/// How a `sides` value reads: one side or both, or the value itself.
pub fn sides_label(value: &str, loader: &FluentLanguageLoader) -> (r: String)
    ensures
        sides_message_spec(value@) is None ==> r@ == value@,
{
    match sides_message(value) {
        Some(message) => localized(loader, message),
        None => string_of(chars_of(value)),
    }
}

// ----------------------------------------------------------- paper sizes

/// What `char::to_uppercase` yields for a character.
pub uninterp spec fn char_uppercase(c: char) -> Seq<char>;

/// Whether a character has the Unicode `Alphabetic` property.
pub uninterp spec fn char_is_alphabetic(c: char) -> bool;

/// Calls `char::to_uppercase` and collects what it yields. Claimed: the
/// result is [`char_uppercase`] of the character; an ASCII letter gives its
/// capital and any other ASCII character itself, as std documents.
#[verifier::external_body]
fn uppercase_char(c: char) -> (r: Vec<char>)
    ensures
        r@ == char_uppercase(c),
        (c as u32) < 128 ==> r@ == seq![crate::text::upper_char(c)],
{
    c.to_uppercase().collect()
}

/// Calls `char::is_alphabetic`. Claimed: the result is
/// [`char_is_alphabetic`] of the character; among ASCII characters only the
/// letters are alphabetic.
#[verifier::external_body]
fn is_alphabetic(c: char) -> (r: bool)
    ensures
        r == char_is_alphabetic(c),
        (c as u32) < 128 ==> (r == crate::text::is_ascii_alpha(c)),
{
    c.is_alphabetic()
}

/// ISO A and B series and C envelope sizes, which read in capitals.
pub open spec fn is_series_name(name: Seq<char>) -> bool {
    &&& name.len() == 2
    &&& ((name[0] == 'a' && '0' <= name[1] && name[1] <= '6') || (name[0] == 'b' && '0' <= name[1] && name[1] <= '5')
        || (name[0] == 'c' && '0' <= name[1] && name[1] <= '5'))
}

/// Whether a character is alphabetic: among ASCII characters the letters,
/// and beyond them what [`char_is_alphabetic`] says.
pub open spec fn alphabetic_char(c: char) -> bool {
    if (c as u32) < 128 {
        crate::text::is_ascii_alpha(c)
    } else {
        char_is_alphabetic(c)
    }
}

/// A character in upper case: an ASCII character by the ASCII rule, and
/// beyond them what [`char_uppercase`] says.
pub open spec fn uppercased(c: char) -> Seq<char> {
    if (c as u32) < 128 {
        seq![crate::text::upper_char(c)]
    } else {
        char_uppercase(c)
    }
}

pub open spec fn has_alphabetic(part: Seq<char>) -> bool {
    exists|i: int| 0 <= i < part.len() && alphabetic_char(#[trigger] part[i])
}

/// A word of a media name with its first character capitalised, where the
/// word has a letter at all.
pub open spec fn capitalized(part: Seq<char>) -> Seq<char> {
    if part.len() > 0 && has_alphabetic(part) {
        uppercased(part[0]) + part.skip(1)
    } else {
        part
    }
}

/// The non-empty pieces, each capitalised.
pub open spec fn words_of(pieces: Seq<Seq<char>>) -> Seq<Seq<char>>
    decreases pieces.len(),
{
    if pieces.len() == 0 {
        Seq::empty()
    } else {
        let rest = words_of(pieces.drop_last());
        if pieces.last().len() == 0 {
            rest
        } else {
            rest.push(capitalized(pieces.last()))
        }
    }
}

/// Words joined with single spaces.
pub open spec fn spaced(words: Seq<Seq<char>>) -> Seq<char>
    decreases words.len(),
{
    if words.len() == 0 {
        Seq::empty()
    } else if words.len() == 1 {
        words[0]
    } else {
        spaced(words.drop_last()) + seq![' '] + words.last()
    }
}

/// How a media name reads: an ISO size in capitals, `dl` as `DL`, and any
/// other name split at `-` and `_` into capitalised words.
pub open spec fn pretty_media_name_spec(name: Seq<char>) -> Seq<char> {
    if is_series_name(name) {
        upper(name)
    } else if name == seq!['d', 'l'] {
        seq!['D', 'L']
    } else {
        spaced(words_of(split_on(name, seq!['-', '_'])))
    }
}

fn capitalize(part: &Vec<char>) -> (r: Vec<char>)
    ensures
        r@ == capitalized(part@),
{
    let mut alphabetic = false;
    let mut i: usize = 0;
    while i < part.len()
        invariant
            i <= part@.len(),
            alphabetic == exists|j: int| 0 <= j < i && alphabetic_char(#[trigger] part@[j]),
        decreases part.len() - i,
    {
        if is_alphabetic(part[i]) {
            alphabetic = true;
        }
        i += 1;
    }
    if part.len() > 0 && alphabetic {
        let mut r = uppercase_char(part[0]);
        let tail = slice_of(part, 1, part.len());
        push_all(&mut r, &tail);
        r
    } else {
        slice_of(part, 0, part.len())
    }
}

/// How a media name reads.
pub fn pretty_media_name(name: &str) -> (r: String)
    ensures
        r@ == pretty_media_name_spec(name@),
{
    let chars = chars_of(name);
    if chars.len() == 2 && ((chars[0] == 'a' && '0' <= chars[1] && chars[1] <= '6') || (chars[0] == 'b' && '0'
        <= chars[1] && chars[1] <= '5') || (chars[0] == 'c' && '0' <= chars[1] && chars[1] <= '5')) {
        return string_of(upper_vec(&chars));
    }
    if chars.len() == 2 && chars[0] == 'd' && chars[1] == 'l' {
        proof {
            assert(name@ =~= seq!['d', 'l']);
        }
        return string_of(vec!['D', 'L']);
    }
    let seps = vec!['-', '_'];
    let pieces = split_on_exec(&chars, &seps);
    let ghost all = pieces.deep_view();
    let mut words: Vec<Vec<char>> = Vec::new();
    let mut i: usize = 0;
    while i < pieces.len()
        invariant
            i <= pieces@.len(),
            all == pieces.deep_view(),
            words.deep_view() == words_of(all.take(i as int)),
        decreases pieces.len() - i,
    {
        proof {
            assert(all.take(i + 1).drop_last() =~= all.take(i as int));
            assert(all.take(i + 1).last() == pieces@[i as int]@);
        }
        if pieces[i].len() > 0 {
            let ghost before = words.deep_view();
            let word = capitalize(&pieces[i]);
            words.push(word);
            proof {
                assert(words.deep_view() =~~= before.push(capitalized(pieces@[i as int]@)));
            }
        }
        i += 1;
    }
    proof {
        assert(all.take(pieces@.len() as int) =~= all);
    }
    let ghost ws = words.deep_view();
    let mut out: Vec<char> = Vec::new();
    let mut k: usize = 0;
    while k < words.len()
        invariant
            k <= words@.len(),
            ws == words.deep_view(),
            out@ == spaced(ws.take(k as int)),
        decreases words.len() - k,
    {
        proof {
            assert(ws.take(k + 1).drop_last() =~= ws.take(k as int));
            assert(ws.take(k + 1).last() == words@[k as int]@);
            if k == 0 {
                assert(ws.take(1) =~= seq![words@[0]@]);
            }
        }
        if k > 0 {
            out.push(' ');
        }
        push_all(&mut out, &words[k]);
        proof {
            if k > 0 {
                assert(out@ =~= spaced(ws.take(k as int)) + seq![' '] + words@[k as int]@);
            } else {
                assert(out@ =~= words@[0]@);
            }
        }
        k += 1;
    }
    proof {
        assert(ws.take(words@.len() as int) =~= ws);
    }
    string_of(out)
}

/// `x` spelled out with spaces around it: `210x297` reads `210 x 297`.
pub open spec fn spread_x(s: Seq<char>) -> Seq<char>
    decreases s.len(),
{
    if s.len() == 0 {
        Seq::empty()
    } else {
        spread_x(s.drop_last()) + if s.last() == 'x' {
            seq![' ', 'x', ' ']
        } else {
            seq![s.last()]
        }
    }
}

/// The name and the size a self-describing media name such as
/// `iso_a4_210x297mm` carries: the name is the part before the size, after
/// any class prefix, and the size is in millimetres or inches.
pub open spec fn media_name_and_size_spec(value: Seq<char>) -> Option<(Seq<char>, Seq<char>)> {
    let unit: Option<Seq<char>> = if ends_with(value, "mm"@) {
        Some("mm"@)
    } else if ends_with(value, "in"@) {
        Some("inches"@)
    } else {
        None
    };
    match unit {
        None => None,
        Some(unit_word) => {
            let size_raw = value.take(value.len() - 2);
            match last_occurrence(size_raw, seq!['_']) {
                None => None,
                Some(k) => {
                    let prefix = value.take(k);
                    let name_raw = match last_occurrence(prefix, seq!['_']) {
                        Some(j) => prefix.skip(j + 1),
                        None => prefix,
                    };
                    Some((pretty_media_name_spec(name_raw), spread_x(size_raw.skip(k + 1)) + seq![' '] + unit_word))
                },
            }
        },
    }
}

fn spread_x_exec(s: &Vec<char>) -> (r: Vec<char>)
    ensures
        r@ == spread_x(s@),
{
    let mut out: Vec<char> = Vec::new();
    let mut i: usize = 0;
    while i < s.len()
        invariant
            i <= s@.len(),
            out@ == spread_x(s@.take(i as int)),
        decreases s.len() - i,
    {
        proof {
            assert(s@.take(i + 1).drop_last() =~= s@.take(i as int));
            assert(s@.take(i + 1).last() == s@[i as int]);
        }
        let ghost before = out@;
        if s[i] == 'x' {
            out.push(' ');
            out.push('x');
            out.push(' ');
            assert(out@ =~= before + seq![' ', 'x', ' ']);
        } else {
            out.push(s[i]);
            assert(out@ =~= before + seq![s@[i as int]]);
        }
        i += 1;
    }
    assert(s@.take(s@.len() as int) =~= s@);
    out
}

/// The name and the size a self-describing media name carries, if it
/// carries them.
pub fn media_name_and_size(value: &str) -> (r: Option<(String, String)>)
    ensures
        match r {
            Some((name, size)) => media_name_and_size_spec(value@) == Some((name@, size@)),
            None => media_name_and_size_spec(value@) is None,
        },
{
    let chars = chars_of(value);
    let mm = chars_of("mm");
    let inches = chars_of("in");
    proof {
        reveal_strlit("mm");
        reveal_strlit("in");
        reveal_strlit("inches");
    }
    let unit_word: &str = if ends_with_exec(&chars, &mm) {
        "mm"
    } else if ends_with_exec(&chars, &inches) {
        "inches"
    } else {
        return None;
    };
    let size_raw = slice_of(&chars, 0, chars.len() - 2);
    let underscore = vec!['_'];
    proof {
        assert(underscore@ =~= seq!['_']);
        assert(size_raw@ =~= value@.take(value@.len() - 2));
    }
    let k = match rfind(&size_raw, &underscore) {
        Some(k) => k,
        None => return None,
    };
    let prefix = slice_of(&chars, 0, k);
    proof {
        assert(prefix@ =~= value@.take(k as int));
    }
    let name_raw = match rfind(&prefix, &underscore) {
        Some(j) => {
            let tail = slice_of(&prefix, j + 1, prefix.len());
            proof {
                assert(tail@ =~= prefix@.skip(j + 1));
            }
            tail
        },
        None => prefix,
    };
    let name = pretty_media_name(string_of(name_raw).as_str());
    let dimensions = slice_of(&size_raw, k + 1, size_raw.len());
    proof {
        assert(dimensions@ =~= size_raw@.skip(k + 1));
    }
    let mut size = spread_x_exec(&dimensions);
    let ghost spread = size@;
    size.push(' ');
    push_str(&mut size, unit_word);
    proof {
        assert(size@ =~= spread + seq![' '] + unit_word@);
    }
    Some((name, string_of(size)))
}

/// How a media name reads on the details page: its name with its size in
/// brackets, or the value itself where it carries no size.
pub open spec fn media_label_spec(value: Seq<char>) -> Seq<char> {
    match media_name_and_size_spec(value) {
        Some((name, size)) => name + " ("@ + size + ")"@,
        None => value,
    }
}

/// How a media name reads on the details page.
pub fn media_label(value: &str) -> (r: String)
    ensures
        r@ == media_label_spec(value@),
{
    match media_name_and_size(value) {
        Some((name, size)) => {
            let mut out = chars_of(name.as_str());
            push_str(&mut out, " (");
            push_str(&mut out, size.as_str());
            push_str(&mut out, ")");
            string_of(out)
        },
        None => string_of(chars_of(value)),
    }
}

} // verus!
