//! A print destination as the service reports it: its identifier, its name,
//! whether it is the default, and the IPP options it was read with.

use vstd::prelude::*;
use crate::text::{chars_of, eq_vec};

verus! {

/// A print destination and the options it was read with.
#[derive(Clone, Debug, PartialEq, Eq)]
pub struct PrinterEntry {
    pub id: String,
    pub name: String,
    pub is_default: bool,
    /// Option names and values, in the order they were read.
    pub options: Vec<(String, String)>,
}

/// A destination as plain values.
pub struct PrinterEntryView {
    pub id: Seq<char>,
    pub name: Seq<char>,
    pub is_default: bool,
    pub options: Seq<(Seq<char>, Seq<char>)>,
}

pub open spec fn options_view(options: Seq<(String, String)>) -> Seq<(Seq<char>, Seq<char>)> {
    options.map_values(|o: (String, String)| (o.0@, o.1@))
}

impl View for PrinterEntry {
    type V = PrinterEntryView;

    open spec fn view(&self) -> PrinterEntryView {
        PrinterEntryView {
            id: self.id@,
            name: self.name@,
            is_default: self.is_default,
            options: options_view(self.options@),
        }
    }
}

pub open spec fn entries_view(entries: Seq<PrinterEntry>) -> Seq<PrinterEntryView> {
    entries.map_values(|e: PrinterEntry| e@)
}

/// The value of the first option with this name.
pub open spec fn option_value(options: Seq<(Seq<char>, Seq<char>)>, name: Seq<char>) -> Option<
    Seq<char>,
>
    decreases options.len(),
{
    if options.len() == 0 {
        None
    } else if options[0].0 == name {
        Some(options[0].1)
    } else {
        option_value(options.drop_first(), name)
    }
}

/// The options after setting one: its first occurrence takes the new
/// value, or it is added at the end where it was absent.
pub open spec fn with_option(options: Seq<(Seq<char>, Seq<char>)>, name: Seq<char>, value: Seq<char>) -> Seq<
    (Seq<char>, Seq<char>),
>
    decreases options.len(),
{
    if options.len() == 0 {
        seq![(name, value)]
    } else if options[0].0 == name {
        seq![(name, value)] + options.drop_first()
    } else {
        seq![options[0]] + with_option(options.drop_first(), name, value)
    }
}

/// Setting an option changes what that name reads and nothing else.
pub proof fn lemma_with_option_reads(
    options: Seq<(Seq<char>, Seq<char>)>,
    name: Seq<char>,
    value: Seq<char>,
    other: Seq<char>,
)
    ensures
        option_value(with_option(options, name, value), other) == if other == name {
            Some(value)
        } else {
            option_value(options, other)
        },
    decreases options.len(),
{
    let w = with_option(options, name, value);
    if options.len() == 0 {
        assert(w[0] == (name, value));
        if other != name {
            assert(w.drop_first() =~= Seq::<(Seq<char>, Seq<char>)>::empty());
            assert(option_value(w.drop_first(), other) is None);
        }
    } else if options[0].0 == name {
        assert(w[0] == (name, value));
        assert(w.drop_first() =~= options.drop_first());
    } else {
        assert(w[0] == options[0]);
        lemma_with_option_reads(options.drop_first(), name, value, other);
        assert(w.drop_first() =~= with_option(options.drop_first(), name, value));
    }
}

proof fn lemma_with_option_at(options: Seq<(Seq<char>, Seq<char>)>, name: Seq<char>, value: Seq<char>, k: int)
    requires
        0 <= k < options.len(),
        options[k].0 == name,
        forall|j: int| 0 <= j < k ==> options[j].0 != name,
    ensures
        with_option(options, name, value) == options.update(k, (name, value)),
    decreases k,
{
    if k == 0 {
        assert(with_option(options, name, value) =~= options.update(k, (name, value)));
    } else {
        let rest = options.drop_first();
        assert forall|j: int| 0 <= j < k - 1 implies rest[j].0 != name by {
            assert(rest[j] == options[j + 1]);
        }
        lemma_with_option_at(rest, name, value, k - 1);
        assert(with_option(options, name, value) =~= options.update(k, (name, value)));
    }
}

proof fn lemma_with_option_absent(options: Seq<(Seq<char>, Seq<char>)>, name: Seq<char>, value: Seq<char>)
    requires
        forall|j: int| 0 <= j < options.len() ==> options[j].0 != name,
    ensures
        with_option(options, name, value) == options.push((name, value)),
    decreases options.len(),
{
    if options.len() > 0 {
        let rest = options.drop_first();
        assert forall|j: int| 0 <= j < rest.len() implies rest[j].0 != name by {
            assert(rest[j] == options[j + 1]);
        }
        lemma_with_option_absent(rest, name, value);
    }
    assert(with_option(options, name, value) =~= options.push((name, value)));
}

impl PrinterEntryView {
    pub open spec fn uuid(self) -> Option<Seq<char>> {
        option_value(self.options, "printer-uuid"@)
    }

    pub open spec fn printer_uri(self) -> Option<Seq<char>> {
        option_value(self.options, "printer-uri-supported"@)
    }

    pub open spec fn device_uri(self) -> Option<Seq<char>> {
        option_value(self.options, "device-uri"@)
    }

    pub open spec fn location(self) -> Option<Seq<char>> {
        option_value(self.options, "printer-location"@)
    }
}

impl PrinterEntry {
    /// A destination with the given identifier, name, default flag and options.
    pub fn new(id: &str, name: &str, is_default: bool, options: Vec<(String, String)>) -> (r: Self)
        ensures
            r@.id == id@,
            r@.name == name@,
            r.is_default == is_default,
            r.options == options,
    {
        PrinterEntry {
            id: crate::text::string_of(chars_of(id)),
            name: crate::text::string_of(chars_of(name)),
            is_default,
            options,
        }
    }

    /// The value of the first option with this name.
    pub fn option(&self, name: &str) -> (r: Option<&str>)
        ensures
            match r {
                Some(v) => option_value(self@.options, name@) == Some(v@),
                None => option_value(self@.options, name@) is None,
            },
    {
        let wanted = chars_of(name);
        let mut i: usize = 0;
        let ghost all = self@.options;
        assert(all.skip(0) =~= all);
        while i < self.options.len()
            invariant
                i <= self.options.len(),
                all == options_view(self.options@),
                wanted@ == name@,
                option_value(all, name@) == option_value(all.skip(i as int), name@),
            decreases self.options.len() - i,
        {
            proof {
                assert(all.skip(i as int).drop_first() =~= all.skip(i + 1));
                assert(all.skip(i as int)[0] == (self.options@[i as int].0@, self.options@[i as int].1@));
            }
            if eq_vec(&chars_of(self.options[i].0.as_str()), &wanted) {
                return Some(self.options[i].1.as_str());
            }
            i += 1;
        }
        None
    }

    /// Sets an option: its first occurrence takes the value, or it is added.
    pub fn set_option(&mut self, name: &str, value: String)
        ensures
            final(self)@.id == old(self)@.id,
            final(self)@.name == old(self)@.name,
            final(self)@.is_default == old(self)@.is_default,
            final(self)@.options == with_option(old(self)@.options, name@, value@),
    {
        let wanted = chars_of(name);
        let ghost before = self@.options;
        let mut i: usize = 0;
        while i < self.options.len()
            invariant
                i <= self.options.len(),
                before == options_view(self.options@),
                before == old(self)@.options,
                self.id == old(self).id,
                self.name == old(self).name,
                self.is_default == old(self).is_default,
                wanted@ == name@,
                forall|j: int| 0 <= j < i ==> (#[trigger] before[j]).0 != name@,
            decreases self.options.len() - i,
        {
            if eq_vec(&chars_of(self.options[i].0.as_str()), &wanted) {
                proof {
                    assert(before[i as int].0 == name@);
                    lemma_with_option_at(before, name@, value@, i as int);
                }
                self.options.set(i, (crate::text::string_of(wanted), value));
                proof {
                    assert(options_view(self.options@) =~= before.update(i as int, (name@, value@)));
                }
                return;
            }
            i += 1;
        }
        proof {
            lemma_with_option_absent(before, name@, value@);
        }
        self.options.push((crate::text::string_of(wanted), value));
        proof {
            assert(options_view(self.options@) =~= before.push((name@, value@)));
        }
    }

    /// The UUID the destination reports (option `printer-uuid`).
    pub fn printer_uuid(&self) -> (r: Option<&str>)
        ensures
            match r {
                Some(v) => self@.uuid() == Some(v@),
                None => self@.uuid() is None,
            },
    {
        self.option("printer-uuid")
    }

    /// The URI the destination is printed to (option `printer-uri-supported`).
    pub fn printer_uri(&self) -> (r: Option<&str>)
        ensures
            match r {
                Some(v) => self@.printer_uri() == Some(v@),
                None => self@.printer_uri() is None,
            },
    {
        self.option("printer-uri-supported")
    }

    /// The device URI behind the destination (option `device-uri`).
    pub fn device_uri(&self) -> (r: Option<&str>)
        ensures
            match r {
                Some(v) => self@.device_uri() == Some(v@),
                None => self@.device_uri() is None,
            },
    {
        self.option("device-uri")
    }

    /// Where the printer is (option `printer-location`).
    pub fn location(&self) -> (r: Option<&str>)
        ensures
            match r {
                Some(v) => self@.location() == Some(v@),
                None => self@.location() is None,
            },
    {
        self.option("printer-location")
    }
}

} // verus!
