//! `Get-Printers`: what a Printer Application has already created.
//!
//! Two things need this. Before creating a printer, so the same device is not
//! configured twice. And after a request whose reply was lost, so a printer
//! that was created can be found instead of the request being retried.

use vstd::prelude::*;
use crate::client::{MAX_COLLECTIONS, bounded, bounded_spec};
use crate::ipp::{IppAttribute, IppAttributeView, IppGroup, attributes_view, opt_view};
use crate::text::{chars_of, eq_ignore_case, eq_vec, str_eq_ignore_case, trim, trim_str};

verus! {

/// A printer a Printer Application has already created.
#[derive(Clone, Debug, PartialEq, Eq)]
pub struct ConfiguredPrinter {
    /// The application's own number for the printer, where it gave one.
    pub printer_id: Option<i32>,
    pub name: String,
    /// The device URI this printer drives, as the application recorded it.
    pub device_uri: Option<String>,
    pub printer_uri: Option<String>,
    pub printer_uuid: Option<String>,
    pub web_interface_uri: Option<String>,
}

/// A configured printer as plain values.
pub struct ConfiguredPrinterView {
    pub printer_id: Option<i32>,
    pub name: Seq<char>,
    pub device_uri: Option<Seq<char>>,
    pub printer_uri: Option<Seq<char>>,
    pub printer_uuid: Option<Seq<char>>,
    pub web_interface_uri: Option<Seq<char>>,
}

impl View for ConfiguredPrinter {
    type V = ConfiguredPrinterView;

    open spec fn view(&self) -> ConfiguredPrinterView {
        ConfiguredPrinterView {
            printer_id: self.printer_id,
            name: self.name@,
            device_uri: opt_view(self.device_uri),
            printer_uri: opt_view(self.printer_uri),
            printer_uuid: opt_view(self.printer_uuid),
            web_interface_uri: opt_view(self.web_interface_uri),
        }
    }
}

pub open spec fn printers_view(printers: Seq<ConfiguredPrinter>) -> Seq<ConfiguredPrinterView> {
    printers.map_values(|p: ConfiguredPrinter| p@)
}

impl ConfiguredPrinter {
    /// A copy of the printer.
    pub fn duplicate(&self) -> (r: Self)
        ensures
            r@ == self@,
    {
        ConfiguredPrinter {
            printer_id: self.printer_id,
            name: crate::text::string_of(chars_of(self.name.as_str())),
            device_uri: crate::ipp::copy_opt(&self.device_uri),
            printer_uri: crate::ipp::copy_opt(&self.printer_uri),
            printer_uuid: crate::ipp::copy_opt(&self.printer_uuid),
            web_interface_uri: crate::ipp::copy_opt(&self.web_interface_uri),
        }
    }
}

/// The attributes of one printer, gathered until the group ends.
#[derive(Clone, Debug, Default)]
pub struct PartialPrinter {
    pub name: Option<String>,
    pub device_uri: Option<String>,
    pub printer_uri: Option<String>,
    pub printer_uuid: Option<String>,
    pub web_interface_uri: Option<String>,
}

impl PartialPrinter {
    /// A record with nothing read yet.
    pub fn empty() -> (r: Self)
        ensures
            r.name is None && r.device_uri is None && r.printer_uri is None && r.printer_uuid
                is None && r.web_interface_uri is None,
    {
        PartialPrinter {
            name: None,
            device_uri: None,
            printer_uri: None,
            printer_uuid: None,
            web_interface_uri: None,
        }
    }

    /// Yields a printer only when it has a name, which is what identifies it
    /// in every later operation.
    pub fn finish(self) -> (r: Option<ConfiguredPrinter>)
        ensures
            self.name is None <==> r is None,
            r matches Some(p) ==> p == (ConfiguredPrinter {
                printer_id: None,
                name: self.name->0,
                device_uri: self.device_uri,
                printer_uri: self.printer_uri,
                printer_uuid: self.printer_uuid,
                web_interface_uri: self.web_interface_uri,
            }),
    {
        match self.name {
            Some(name) => Some(
                ConfiguredPrinter {
                    printer_id: None,
                    name,
                    device_uri: self.device_uri,
                    printer_uri: self.printer_uri,
                    printer_uuid: self.printer_uuid,
                    web_interface_uri: self.web_interface_uri,
                },
            ),
            None => None,
        }
    }
}

/// The index of the first printer recorded for exactly this device URI.
pub open spec fn index_by_device_uri(printers: Seq<ConfiguredPrinterView>, device_uri: Seq<char>)
    -> Option<int>
    decreases printers.len(),
{
    if printers.len() == 0 {
        None
    } else {
        match index_by_device_uri(printers.drop_last(), device_uri) {
            Some(i) => Some(i),
            None => if printers.last().device_uri == Some(device_uri) {
                Some(printers.len() - 1)
            } else {
                None
            },
        }
    }
}

/// The index of the first printer with this name, ASCII case ignored.
pub open spec fn index_by_name(printers: Seq<ConfiguredPrinterView>, name: Seq<char>) -> Option<
    int,
>
    decreases printers.len(),
{
    if printers.len() == 0 {
        None
    } else {
        match index_by_name(printers.drop_last(), name) {
            Some(i) => Some(i),
            None => if eq_ignore_case(printers.last().name, name) {
                Some(printers.len() - 1)
            } else {
                None
            },
        }
    }
}

/// Whether some printer has this name, ASCII case ignored.
pub open spec fn name_taken(printers: Seq<ConfiguredPrinterView>, name: Seq<char>) -> bool {
    exists|i: int| 0 <= i < printers.len() && eq_ignore_case(#[trigger] printers[i].name, name)
}

pub proof fn lemma_index_by_name(printers: Seq<ConfiguredPrinterView>, name: Seq<char>)
    ensures
        index_by_name(printers, name) is Some <==> name_taken(printers, name),
        index_by_name(printers, name) matches Some(i) ==> 0 <= i < printers.len() && eq_ignore_case(
            printers[i].name,
            name,
        ),
    decreases printers.len(),
{
    if printers.len() > 0 {
        let rest = printers.drop_last();
        lemma_index_by_name(rest, name);
        if name_taken(printers, name) {
            let i = choose|i: int| 0 <= i < printers.len() && eq_ignore_case(
                #[trigger] printers[i].name,
                name,
            );
            if i < printers.len() - 1 {
                assert(rest[i] == printers[i]);
            }
        }
        if name_taken(rest, name) {
            let i = choose|i: int| 0 <= i < rest.len() && eq_ignore_case(#[trigger] rest[i].name, name);
            assert(printers[i] == rest[i]);
        }
        if let Some(i) = index_by_name(rest, name) {
            assert(printers[i] == rest[i]);
        }
    }
}

/// Looks for a printer this application already has for a device, by the
/// exact device URI the application itself recorded.
pub fn position_by_device_uri(printers: &Vec<ConfiguredPrinter>, device_uri: &str) -> (r: Option<usize>)
    ensures
        r matches Some(i) ==> i < printers.len(),
        match r {
            Some(i) => index_by_device_uri(printers_view(printers@), device_uri@) == Some(i as int),
            None => index_by_device_uri(printers_view(printers@), device_uri@) is None,
        },
{
    let wanted = chars_of(device_uri);
    let mut i: usize = 0;
    while i < printers.len()
        invariant
            i <= printers.len(),
            wanted@ == device_uri@,
            index_by_device_uri(printers_view(printers@.take(i as int)), device_uri@) is None,
        decreases printers.len() - i,
    {
        let hit = match &printers[i].device_uri {
            Some(u) => eq_vec(&chars_of(u.as_str()), &wanted),
            None => false,
        };
        proof {
            let pre = printers_view(printers@.take(i + 1));
            assert(pre.drop_last() =~= printers_view(printers@.take(i as int)));
            assert(pre.last() == printers@[i as int]@);
            assert(printers_view(printers@).take(i + 1) =~= pre);
        }
        if hit {
            proof {
                lemma_device_prefix(printers_view(printers@), device_uri@, i as int + 1);
            }
            return Some(i);
        }
        i += 1;
    }
    assert(printers@.take(printers.len() as int) =~= printers@);
    None
}

/// Looks for a printer this application already has for a device, by the exact device URI the application itself recorded.
pub fn find_by_device_uri<'a>(printers: &'a Vec<ConfiguredPrinter>, device_uri: &str) -> (r: Option<
    &'a ConfiguredPrinter,
>)
    ensures
        match r {
            Some(p) => index_by_device_uri(printers_view(printers@), device_uri@) matches Some(i) && 0 <= i
                < printers.len() && *p == printers@[i],
            None => index_by_device_uri(printers_view(printers@), device_uri@) is None,
        },
{
    match position_by_device_uri(printers, device_uri) {
        Some(i) => Some(&printers[i]),
        None => None,
    }
}

pub proof fn lemma_device_prefix(printers: Seq<ConfiguredPrinterView>, uri: Seq<char>, k: int)
    requires
        0 <= k <= printers.len(),
        index_by_device_uri(printers.take(k), uri) is Some,
    ensures
        index_by_device_uri(printers, uri) == index_by_device_uri(printers.take(k), uri),
    decreases printers.len() - k,
{
    if k < printers.len() {
        assert(printers.take(k + 1).drop_last() =~= printers.take(k));
        lemma_device_prefix(printers, uri, k + 1);
    } else {
        assert(printers.take(k) =~= printers);
    }
}

pub proof fn lemma_name_prefix(printers: Seq<ConfiguredPrinterView>, name: Seq<char>, k: int)
    requires
        0 <= k <= printers.len(),
        index_by_name(printers.take(k), name) is Some,
    ensures
        index_by_name(printers, name) == index_by_name(printers.take(k), name),
    decreases printers.len() - k,
{
    if k < printers.len() {
        assert(printers.take(k + 1).drop_last() =~= printers.take(k));
        lemma_name_prefix(printers, name, k + 1);
    } else {
        assert(printers.take(k) =~= printers);
    }
}

/// Looks for a printer by the name that was requested, ignoring ASCII case.
pub fn position_by_name(printers: &Vec<ConfiguredPrinter>, name: &str) -> (r: Option<usize>)
    ensures
        r matches Some(i) ==> i < printers.len(),
        match r {
            Some(i) => index_by_name(printers_view(printers@), name@) == Some(i as int),
            None => index_by_name(printers_view(printers@), name@) is None,
        },
        r is Some <==> name_taken(printers_view(printers@), name@),
{
    proof {
        lemma_index_by_name(printers_view(printers@), name@);
    }
    let mut i: usize = 0;
    while i < printers.len()
        invariant
            i <= printers.len(),
            index_by_name(printers_view(printers@.take(i as int)), name@) is None,
        decreases printers.len() - i,
    {
        let hit = str_eq_ignore_case(printers[i].name.as_str(), name);
        proof {
            let pre = printers_view(printers@.take(i + 1));
            assert(pre.drop_last() =~= printers_view(printers@.take(i as int)));
            assert(pre.last() == printers@[i as int]@);
            assert(printers_view(printers@).take(i + 1) =~= pre);
        }
        if hit {
            proof {
                lemma_name_prefix(printers_view(printers@), name@, i as int + 1);
            }
            return Some(i);
        }
        i += 1;
    }
    assert(printers@.take(printers.len() as int) =~= printers@);
    None
}

/// Looks for a printer by the name that was requested, ignoring ASCII case.
pub fn find_by_name<'a>(printers: &'a Vec<ConfiguredPrinter>, name: &str) -> (r: Option<
    &'a ConfiguredPrinter,
>)
    ensures
        match r {
            Some(p) => index_by_name(printers_view(printers@), name@) matches Some(i) && 0 <= i
                < printers.len() && *p == printers@[i],
            None => index_by_name(printers_view(printers@), name@) is None,
        },
{
    match position_by_name(printers, name) {
        Some(i) => Some(&printers[i]),
        None => None,
    }
}

/// A partly read printer record as plain values.
pub struct PartialView {
    pub name: Option<Seq<char>>,
    pub device_uri: Option<Seq<char>>,
    pub printer_uri: Option<Seq<char>>,
    pub printer_uuid: Option<Seq<char>>,
    pub web_interface_uri: Option<Seq<char>>,
}

pub open spec fn partial_view(p: PartialPrinter) -> PartialView {
    PartialView {
        name: opt_view(p.name),
        device_uri: opt_view(p.device_uri),
        printer_uri: opt_view(p.printer_uri),
        printer_uuid: opt_view(p.printer_uuid),
        web_interface_uri: opt_view(p.web_interface_uri),
    }
}

pub open spec fn empty_partial() -> PartialView {
    PartialView {
        name: None,
        device_uri: None,
        printer_uri: None,
        printer_uuid: None,
        web_interface_uri: None,
    }
}

/// The printer a finished record yields: none without a name.
pub open spec fn finished(p: PartialView) -> Seq<ConfiguredPrinterView> {
    match p.name {
        Some(name) => seq![
            ConfiguredPrinterView {
                printer_id: None,
                name,
                device_uri: p.device_uri,
                printer_uri: p.printer_uri,
                printer_uuid: p.printer_uuid,
                web_interface_uri: p.web_interface_uri,
            },
        ],
        None => Seq::empty(),
    }
}

pub open spec fn attr_printer_name() -> Seq<char> {
    seq!['p', 'r', 'i', 'n', 't', 'e', 'r', '-', 'n', 'a', 'm', 'e']
}

/// The attribute a Printer Application records a device URI in.
pub open spec fn attr_device_uri() -> Seq<char> {
    seq!['s', 'm', 'i', '5', '5', '3', '5', '7', '-', 'd', 'e', 'v', 'i', 'c', 'e', '-', 'u', 'r', 'i']
}

pub open spec fn attr_printer_uri() -> Seq<char> {
    seq![
        'p', 'r', 'i', 'n', 't', 'e', 'r', '-', 'u', 'r', 'i', '-', 's', 'u', 'p', 'p', 'o', 'r',
        't', 'e', 'd',
    ]
}

pub open spec fn attr_printer_uuid() -> Seq<char> {
    seq!['p', 'r', 'i', 'n', 't', 'e', 'r', '-', 'u', 'u', 'i', 'd']
}

pub open spec fn attr_more_info() -> Seq<char> {
    seq!['p', 'r', 'i', 'n', 't', 'e', 'r', '-', 'm', 'o', 'r', 'e', '-', 'i', 'n', 'f', 'o']
}

/// A record with one more value read into it.
pub open spec fn with_value(p: PartialView, name: Seq<char>, value: Seq<char>) -> PartialView {
    if name == attr_printer_name() {
        PartialView { name: Some(value), ..p }
    } else if name == attr_device_uri() {
        PartialView { device_uri: Some(value), ..p }
    } else if name == attr_printer_uri() {
        PartialView { printer_uri: Some(value), ..p }
    } else if name == attr_printer_uuid() {
        PartialView { printer_uuid: Some(value), ..p }
    } else if name == attr_more_info() {
        PartialView { web_interface_uri: Some(value), ..p }
    } else {
        p
    }
}

/// The value a printer attribute contributes: its first string, bounded
/// and trimmed, when anything is left.
pub open spec fn attribute_value(a: IppAttributeView) -> Option<Seq<char>> {
    match a.text {
        Some(t) => if trim(bounded_spec(t)).len() > 0 {
            Some(trim(bounded_spec(t)))
        } else {
            None
        },
        None => None,
    }
}

/// Reading a `Get-Printers` response up to some attribute: the printers
/// finished so far, the record being read, and whether reading stopped
/// because enough printers were read.
pub open spec fn read_printers(attrs: Seq<IppAttributeView>) -> (
    Seq<ConfiguredPrinterView>,
    PartialView,
    bool,
)
    decreases attrs.len(),
{
    if attrs.len() == 0 {
        (Seq::empty(), empty_partial(), false)
    } else {
        let (done, current, stopped) = read_printers(attrs.drop_last());
        let a = attrs.last();
        if stopped {
            (done, current, stopped)
        } else {
            match a.name {
                None => (done + finished(current), empty_partial(), false),
                Some(name) => if a.group != IppGroup::Printer {
                    (done, current, false)
                } else {
                    match attribute_value(a) {
                        None => (done, current, false),
                        Some(v) => (done, with_value(current, name, v), done.len()
                            >= MAX_COLLECTIONS),
                    }
                },
            }
        }
    }
}

/// The printers a `Get-Printers` response lists. Printers are separated by
/// nameless attributes; only Printer-group attributes are read; a printer
/// without a name is no printer; reading stops once enough printers are in.
pub open spec fn printers_from_spec(attrs: Seq<IppAttributeView>) -> Seq<ConfiguredPrinterView> {
    read_printers(attrs).0 + finished(read_printers(attrs).1)
}

pub proof fn lemma_read_stopped(attrs: Seq<IppAttributeView>, k: int)
    requires
        0 <= k <= attrs.len(),
        read_printers(attrs.take(k)).2,
    ensures
        read_printers(attrs) == read_printers(attrs.take(k)),
    decreases attrs.len() - k,
{
    if k < attrs.len() {
        assert(attrs.take(k + 1).drop_last() =~= attrs.take(k));
        lemma_read_stopped(attrs, k + 1);
    } else {
        assert(attrs.take(k) =~= attrs);
    }
}

fn set_value(current: &mut PartialPrinter, name: &str, value: String)
    ensures
        partial_view(*final(current)) == with_value(partial_view(*old(current)), name@, value@),
{
    proof {
        reveal_strlit("printer-name");
        reveal_strlit("smi55357-device-uri");
        reveal_strlit("printer-uri-supported");
        reveal_strlit("printer-uuid");
        reveal_strlit("printer-more-info");
        assert("printer-name"@ =~= attr_printer_name());
        assert("smi55357-device-uri"@ =~= attr_device_uri());
        assert("printer-uri-supported"@ =~= attr_printer_uri());
        assert("printer-uuid"@ =~= attr_printer_uuid());
        assert("printer-more-info"@ =~= attr_more_info());
    }
    let n = chars_of(name);
    if eq_vec(&n, &chars_of("printer-name")) {
        current.name = Some(value);
    } else if eq_vec(&n, &chars_of("smi55357-device-uri")) {
        current.device_uri = Some(value);
    } else if eq_vec(&n, &chars_of("printer-uri-supported")) {
        current.printer_uri = Some(value);
    } else if eq_vec(&n, &chars_of("printer-uuid")) {
        current.printer_uuid = Some(value);
    } else if eq_vec(&n, &chars_of("printer-more-info")) {
        current.web_interface_uri = Some(value);
    }
}

fn push_finished(printers: &mut Vec<ConfiguredPrinter>, current: PartialPrinter)
    ensures
        printers_view(final(printers)@) == printers_view(old(printers)@) + finished(
            partial_view(current),
        ),
{
    let ghost before = printers@;
    match current.finish() {
        Some(p) => {
            printers.push(p);
            assert(printers_view(printers@) =~= printers_view(before) + finished(
                partial_view(current),
            ));
        },
        None => {
            assert(printers_view(printers@) =~= printers_view(before) + finished(
                partial_view(current),
            ));
        },
    }
}

/// Reads the printers out of the attributes of a `Get-Printers` response.
pub fn printers_from_attributes(attrs: &Vec<IppAttribute>) -> (r: Vec<ConfiguredPrinter>)
    ensures
        printers_view(r@) == printers_from_spec(attributes_view(attrs@)),
{
    let mut printers: Vec<ConfiguredPrinter> = Vec::new();
    let mut current = PartialPrinter::empty();
    let mut i: usize = 0;
    let ghost all = attributes_view(attrs@);
    while i < attrs.len()
        invariant
            i <= attrs.len(),
            all == attributes_view(attrs@),
            read_printers(all.take(i as int)) == (
                printers_view(printers@),
                partial_view(current),
                false,
            ),
        decreases attrs.len() - i,
    {
        proof {
            assert(all.take(i + 1).drop_last() =~= all.take(i as int));
            assert(all.take(i + 1).last() == attrs@[i as int]@);
        }
        let attribute = &attrs[i];
        match &attribute.name {
            None => {
                let finishing = current;
                current = PartialPrinter::empty();
                push_finished(&mut printers, finishing);
            },
            Some(name) => {
                if attribute.group == IppGroup::Printer {
                    match &attribute.text {
                        Some(t) => {
                            let value = trim_str(bounded(t.clone()).as_str());
                            if value.as_str().unicode_len() > 0 {
                                set_value(&mut current, name.as_str(), value);
                                if printers.len() >= MAX_COLLECTIONS {
                                    proof {
                                        lemma_read_stopped(all, i + 1);
                                    }
                                    push_finished(&mut printers, current);
                                    return printers;
                                }
                            }
                        },
                        None => {},
                    }
                }
            },
        }
        i += 1;
    }
    assert(all.take(attrs.len() as int) =~= all);
    push_finished(&mut printers, current);
    printers
}

} // verus!
