//! The printers the print server says exist, as they were last seen, in
//! order of identifier. An enumeration that does not list a printer is not
//! enough to drop it: only two passes in a row that miss it are, and a
//! pass that lists it again starts the count over.

use vstd::prelude::*;
use crate::endpoints::{
    DnssdDeviceEndpoint, DnssdDeviceEndpointView, device_service_name, endpoint_in, endpoint_lookup, endpoints_view,
    flag_text, service_name_of, with_endpoint, without_endpoint,
};
use crate::entry::{PrinterEntry, PrinterEntryView, entries_view, lemma_with_option_reads, option_value, options_view, with_option};
use crate::text::decimal;
use crate::text::{chars_of, eq_vec, lex_lt, lex_lt_exec, string_of};

verus! {

/// How many passes in a row must miss a destination before it is dropped.
pub const MISSES_BEFORE_DROPPING: u8 = 2;

/// Identifiers in strictly increasing order.
pub open spec fn ids_increasing(entries: Seq<PrinterEntryView>) -> bool {
    forall|a: int, b: int| 0 <= a < b < entries.len() ==> lex_lt(#[trigger] entries[a].id, #[trigger] entries[b].id)
}

/// How many passes in a row have missed a destination.
pub open spec fn misses_in(misses: Seq<(Seq<char>, u8)>, id: Seq<char>) -> u8
    decreases misses.len(),
{
    if misses.len() == 0 {
        0
    } else if misses.last().0 == id {
        misses.last().1
    } else {
        misses_in(misses.drop_last(), id)
    }
}

pub open spec fn misses_view(misses: Seq<(String, u8)>) -> Seq<(Seq<char>, u8)> {
    misses.map_values(|m: (String, u8)| (m.0@, m.1))
}

/// The count a pass leaves a destination with: none when the pass listed
/// it, one more otherwise.
pub open spec fn next_misses(before: u8, listed: bool) -> u8 {
    if listed {
        0
    } else if before < 255 {
        (before + 1) as u8
    } else {
        255
    }
}

pub open spec fn strings_view(v: Seq<String>) -> Seq<Seq<char>> {
    v.map_values(|s: String| s@)
}

pub(crate) fn entry_copy(e: &PrinterEntry) -> (r: PrinterEntry)
    ensures
        r@ == e@,
{
    let mut options: Vec<(String, String)> = Vec::new();
    let mut i: usize = 0;
    while i < e.options.len()
        invariant
            i <= e.options@.len(),
            options@.len() == i,
            forall|k: int| 0 <= k < i ==> (#[trigger] options@[k]).0@ == e.options@[k].0@ && options@[k].1@ == e.options@[k].1@,
        decreases e.options.len() - i,
    {
        options.push((string_of(chars_of(e.options[i].0.as_str())), string_of(chars_of(e.options[i].1.as_str()))));
        i += 1;
    }
    proof {
        assert(options_view(options@) =~= options_view(e.options@));
    }
    PrinterEntry {
        id: string_of(chars_of(e.id.as_str())),
        name: string_of(chars_of(e.name.as_str())),
        is_default: e.is_default,
        options,
    }
}

pub(crate) fn same_entry(a: &PrinterEntry, b: &PrinterEntry) -> (r: bool)
    ensures
        r == (a@ == b@),
{
    if !crate::text::str_eq(a.id.as_str(), b.id.as_str()) || !crate::text::str_eq(a.name.as_str(), b.name.as_str())
        || a.is_default != b.is_default || a.options.len() != b.options.len() {
        proof {
            if a.options.len() != b.options.len() {
                assert(a@.options.len() != b@.options.len());
            }
        }
        return false;
    }
    let mut i: usize = 0;
    while i < a.options.len()
        invariant
            i <= a.options@.len(),
            a.options@.len() == b.options@.len(),
            forall|k: int| 0 <= k < i ==> (#[trigger] a@.options[k]) == b@.options[k],
        decreases a.options.len() - i,
    {
        if !crate::text::str_eq(a.options[i].0.as_str(), b.options[i].0.as_str()) || !crate::text::str_eq(
            a.options[i].1.as_str(),
            b.options[i].1.as_str(),
        ) {
            proof {
                assert(a@.options[i as int] != b@.options[i as int]);
            }
            return false;
        }
        i += 1;
    }
    proof {
        assert(a@.options =~= b@.options);
    }
    true
}


/// Whether a destination stays after a pass: it was listed, or this is the
/// first pass in a row to miss it.
pub open spec fn survives(misses_before: u8, listed: bool) -> bool {
    listed || next_misses(misses_before, false) < MISSES_BEFORE_DROPPING
}

/// How many passes in a row have missed a destination after a pass.
pub open spec fn misses_after(misses_before: u8, listed: bool) -> u8 {
    if survives(misses_before, listed) {
        next_misses(misses_before, listed)
    } else {
        0
    }
}

fn contains_string(values: &Vec<String>, wanted: &str) -> (r: bool)
    ensures
        r == strings_view(values@).contains(wanted@),
{
    let w = chars_of(wanted);
    let mut i: usize = 0;
    while i < values.len()
        invariant
            i <= values@.len(),
            w@ == wanted@,
            forall|k: int| 0 <= k < i ==> (#[trigger] values@[k])@ != wanted@,
        decreases values.len() - i,
    {
        if eq_vec(&chars_of(values[i].as_str()), &w) {
            proof {
                assert(strings_view(values@)[i as int] == wanted@);
            }
            return true;
        }
        i += 1;
    }
    proof {
        if strings_view(values@).contains(wanted@) {
            let k = choose|k: int| 0 <= k < strings_view(values@).len() && strings_view(values@)[k] == wanted@;
            assert(values@[k]@ == wanted@);
        }
    }
    false
}

fn misses_lookup(misses: &Vec<(String, u8)>, id: &str) -> (r: u8)
    ensures
        r == misses_in(misses_view(misses@), id@),
{
    let ghost mv = misses_view(misses@);
    let w = chars_of(id);
    let mut k: usize = misses.len();
    proof {
        assert(mv.take(k as int) =~= mv);
    }
    while k > 0
        invariant
            k <= misses@.len(),
            mv == misses_view(misses@),
            w@ == id@,
            misses_in(mv, id@) == misses_in(mv.take(k as int), id@),
        decreases k,
    {
        proof {
            assert(mv.take(k as int).drop_last() =~= mv.take(k - 1));
        }
        if eq_vec(&chars_of(misses[k - 1].0.as_str()), &w) {
            return misses[k - 1].1;
        }
        k -= 1;
    }
    0
}

/// Whether a count is about another destination than `gone`.
pub open spec fn not_for(gone: Seq<char>) -> spec_fn((Seq<char>, u8)) -> bool {
    |p: (Seq<char>, u8)| p.0 != gone
}

proof fn lemma_misses_filter(m: Seq<(Seq<char>, u8)>, gone: Seq<char>, id: Seq<char>)
    ensures
        misses_in(m.filter(not_for(gone)), id) == if id == gone { 0 } else { misses_in(m, id) },
    decreases m.len(),
{
    reveal(Seq::filter);
    if m.len() > 0 {
        lemma_misses_filter(m.drop_last(), gone, id);
        let sub = m.drop_last().filter(not_for(gone));
        if not_for(gone)(m.last()) {
            assert(m.filter(not_for(gone)) == sub.push(m.last()));
            assert(sub.push(m.last()).drop_last() =~= sub);
        } else {
            assert(m.filter(not_for(gone)) == sub);
        }
    }
}

fn without_misses(misses: &Vec<(String, u8)>, id: &str) -> (r: Vec<(String, u8)>)
    ensures
        forall|other: Seq<char>| #[trigger] misses_in(misses_view(r@), other) == if other == id@ {
            0
        } else {
            misses_in(misses_view(misses@), other)
        },
{
    let ghost mb = misses_view(misses@);
    let mut kept: Vec<(String, u8)> = Vec::new();
    let w = chars_of(id);
    let mut i: usize = 0;
    proof {
        reveal(Seq::filter);
        assert(misses_view(kept@) =~= mb.take(0).filter(not_for(id@)));
    }
    while i < misses.len()
        invariant
            i <= misses@.len(),
            mb == misses_view(misses@),
            w@ == id@,
            misses_view(kept@) == mb.take(i as int).filter(not_for(id@)),
        decreases misses.len() - i,
    {
        proof {
            reveal(Seq::filter);
            assert(mb.take(i + 1).drop_last() =~= mb.take(i as int));
            assert(mb[i as int].0 == misses@[i as int].0@);
        }
        if !eq_vec(&chars_of(misses[i].0.as_str()), &w) {
            let ghost prev = kept@;
            kept.push((string_of(chars_of(misses[i].0.as_str())), misses[i].1));
            proof {
                assert(not_for(id@)(mb[i as int]));
                assert(misses_view(kept@) =~= misses_view(prev).push(mb[i as int]));
            }
        } else {
            proof {
                assert(!not_for(id@)(mb[i as int]));
            }
        }
        i += 1;
    }
    proof {
        assert(mb.take(misses@.len() as int) =~= mb);
        assert forall|other: Seq<char>| #[trigger] misses_in(misses_view(kept@), other) == if other == id@ {
            0
        } else {
            misses_in(mb, other)
        } by {
            lemma_misses_filter(mb, id@, other);
        }
    }
    kept
}

/// Whether one of the first `n` destinations has this identifier.
pub open spec fn seen_before(entries: Seq<PrinterEntryView>, n: int, id: Seq<char>) -> bool {
    exists|j: int| 0 <= j < n && (#[trigger] entries[j]).id == id
}

/// After a pass over the first `n` of `entries`, the counts say for each of
/// them what the pass leaves, and nothing for any other identifier.
pub open spec fn misses_accounted(
    after: Seq<(Seq<char>, u8)>,
    before: Seq<(Seq<char>, u8)>,
    entries: Seq<PrinterEntryView>,
    listed: Seq<Seq<char>>,
    n: int,
) -> bool {
    forall|id: Seq<char>| #[trigger] misses_in(after, id) == if seen_before(entries, n, id) {
        misses_after(misses_in(before, id), listed.contains(id))
    } else {
        0
    }
}

proof fn lemma_misses_step(
    mvb: Seq<(Seq<char>, u8)>,
    ma: Seq<(Seq<char>, u8)>,
    mb: Seq<(Seq<char>, u8)>,
    ev: Seq<PrinterEntryView>,
    pv: Seq<Seq<char>>,
    i: int,
    listed: bool,
    before_misses: u8,
    count: u8,
)
    requires
        0 <= i < ev.len(),
        ids_increasing(ev),
        misses_accounted(mvb, mb, ev, pv, i),
        listed == pv.contains(ev[i].id),
        before_misses == misses_in(mb, ev[i].id),
        count == next_misses(before_misses, listed),
        ma == if !listed && count < MISSES_BEFORE_DROPPING {
            mvb.push((ev[i].id, count))
        } else {
            mvb
        },
    ensures
        misses_accounted(ma, mb, ev, pv, i + 1),
{
    let x = ev[i];
    assert(!seen_before(ev, i, x.id)) by {
        if seen_before(ev, i, x.id) {
            let j = choose|j: int| 0 <= j < i && (#[trigger] ev[j]).id == x.id;
            assert(lex_lt(ev[j].id, ev[i].id));
            crate::text::lemma_lex_irreflexive(x.id);
        }
    }
    assert forall|id: Seq<char>| #[trigger] misses_in(ma, id) == if seen_before(ev, i + 1, id) {
        misses_after(misses_in(mb, id), pv.contains(id))
    } else {
        0
    } by {
        if ma != mvb {
            assert(ma.drop_last() =~= mvb);
            assert(ma.last() == (x.id, count));
            if id != x.id {
                assert(misses_in(ma, id) == misses_in(mvb, id));
            } else {
                assert(misses_in(ma, id) == count);
            }
        }
        let before_id = misses_in(mvb, id);
        if id == x.id {
            assert(seen_before(ev, i + 1, id)) by {
                assert(ev[i].id == id);
            }
            assert(misses_in(mvb, id) == 0);
        } else {
            if seen_before(ev, i + 1, id) {
                let j = choose|j: int| 0 <= j < i + 1 && (#[trigger] ev[j]).id == id;
                assert(j < i);
                assert(seen_before(ev, i, id));
            }
            if seen_before(ev, i, id) {
                let j = choose|j: int| 0 <= j < i && (#[trigger] ev[j]).id == id;
                assert(seen_before(ev, i + 1, id));
            }
        }
    }
}

/// Whether one of the first `n` destinations has this identifier and
/// names this DNS-SD service.
pub open spec fn advertised_before(entries: Seq<PrinterEntryView>, n: int, id: Seq<char>, service: Seq<char>) -> bool {
    exists|j: int| 0 <= j < n && (#[trigger] entries[j]).id == id && service_name_of(entries[j]) == Some(service)
}

/// After the first `n` destinations are counted as missed once more where
/// they name `service`, the counts say so, and are unchanged otherwise.
pub open spec fn misses_bumped(
    after: Seq<(Seq<char>, u8)>,
    before: Seq<(Seq<char>, u8)>,
    entries: Seq<PrinterEntryView>,
    service: Seq<char>,
    n: int,
) -> bool {
    forall|id: Seq<char>| #[trigger] misses_in(after, id) == if advertised_before(entries, n, id, service) {
        next_misses(misses_in(before, id), false)
    } else {
        misses_in(before, id)
    }
}

proof fn lemma_bump_step(
    cur: Seq<(Seq<char>, u8)>,
    next: Seq<(Seq<char>, u8)>,
    mb: Seq<(Seq<char>, u8)>,
    ev: Seq<PrinterEntryView>,
    service: Seq<char>,
    i: int,
    matches: bool,
)
    requires
        0 <= i < ev.len(),
        ids_increasing(ev),
        misses_bumped(cur, mb, ev, service, i),
        matches == (service_name_of(ev[i]) == Some(service)),
        matches ==> forall|id: Seq<char>| #[trigger] misses_in(next, id) == if id == ev[i].id {
            next_misses(misses_in(cur, id), false)
        } else {
            misses_in(cur, id)
        },
        !matches ==> next == cur,
    ensures
        misses_bumped(next, mb, ev, service, i + 1),
{
    let x = ev[i];
    assert(!seen_before(ev, i, x.id)) by {
        if seen_before(ev, i, x.id) {
            let j = choose|j: int| 0 <= j < i && (#[trigger] ev[j]).id == x.id;
            assert(lex_lt(ev[j].id, ev[i].id));
            crate::text::lemma_lex_irreflexive(x.id);
        }
    }
    assert forall|id: Seq<char>| #[trigger] misses_in(next, id) == if advertised_before(ev, i + 1, id, service) {
        next_misses(misses_in(mb, id), false)
    } else {
        misses_in(mb, id)
    } by {
        let was = misses_in(cur, id);
        if advertised_before(ev, i, id, service) {
            let j = choose|j: int| 0 <= j < i && (#[trigger] ev[j]).id == id && service_name_of(ev[j]) == Some(service);
            assert(advertised_before(ev, i + 1, id, service));
            assert(seen_before(ev, i, id));
        }
        if id == x.id {
            assert(!advertised_before(ev, i, id, service));
            if matches {
                assert(advertised_before(ev, i + 1, id, service)) by {
                    assert(ev[i].id == id);
                }
            } else if advertised_before(ev, i + 1, id, service) {
                let j = choose|j: int| 0 <= j < i + 1 && (#[trigger] ev[j]).id == id && service_name_of(ev[j]) == Some(service);
                assert(j < i);
            }
        } else if advertised_before(ev, i + 1, id, service) {
            let j = choose|j: int| 0 <= j < i + 1 && (#[trigger] ev[j]).id == id && service_name_of(ev[j]) == Some(service);
            assert(j < i);
            assert(advertised_before(ev, i, id, service));
        }
    }
}

/// The counts with one set anew.
fn with_misses(misses: &Vec<(String, u8)>, id: &str, count: u8) -> (r: Vec<(String, u8)>)
    ensures
        forall|other: Seq<char>| #[trigger] misses_in(misses_view(r@), other) == if other == id@ {
            count
        } else {
            misses_in(misses_view(misses@), other)
        },
{
    let mut kept = without_misses(misses, id);
    let ghost prev = misses_view(kept@);
    kept.push((string_of(chars_of(id)), count));
    proof {
        let now = misses_view(kept@);
        assert(now =~= prev.push((id@, count)));
        assert(now.drop_last() =~= prev);
        assert forall|other: Seq<char>| #[trigger] misses_in(now, other) == if other == id@ {
            count
        } else {
            misses_in(misses_view(misses@), other)
        } by {
            assert(now.last() == (id@, count));
            assert(misses_in(prev, other) == if other == id@ {
                0
            } else {
                misses_in(misses_view(misses@), other)
            });
        }
    }
    kept
}

/// Where an identifier stands among destinations in order of identifier:
/// its position, or where it would be inserted.
pub fn id_position(entries: &Vec<PrinterEntry>, id: &str) -> (r: Result<usize, usize>)
    requires
        ids_increasing(entries_view(entries@)),
    ensures
        match r {
            Ok(k) => k < entries@.len() && entries_view(entries@)[k as int].id == id@,
            Err(k) => k <= entries@.len() && (forall|j: int| 0 <= j < entries@.len() ==> (#[trigger] entries_view(entries@)[j]).id != id@)
                && (forall|j: int| 0 <= j < k ==> lex_lt(#[trigger] entries_view(entries@)[j].id, id@))
                && (forall|j: int| k <= j < entries@.len() ==> lex_lt(id@, #[trigger] entries_view(entries@)[j].id)),
        },
{
    let wanted = chars_of(id);
    let ghost ev = entries_view(entries@);
    let mut k: usize = 0;
    while k < entries.len()
        invariant
            k <= entries@.len(),
            ev == entries_view(entries@),
            ids_increasing(ev),
            wanted@ == id@,
            forall|j: int| 0 <= j < k ==> lex_lt(#[trigger] ev[j].id, id@),
        decreases entries.len() - k,
    {
        let here = chars_of(entries[k].id.as_str());
        if eq_vec(&here, &wanted) {
            return Ok(k);
        }
        if !lex_lt_exec(&here, &wanted) {
            proof {
                crate::text::lemma_lex_total(ev[k as int].id, id@);
                assert forall|j: int| k <= j < ev.len() implies lex_lt(id@, #[trigger] ev[j].id) by {
                    if j > k {
                        crate::text::lemma_lex_transitive(id@, ev[k as int].id, ev[j].id);
                    }
                }
                assert forall|j: int| 0 <= j < ev.len() implies (#[trigger] ev[j]).id != id@ by {
                    if j < k {
                        crate::text::lemma_lex_irreflexive(id@);
                    } else {
                        crate::text::lemma_lex_irreflexive(id@);
                    }
                }
            }
            return Err(k);
        }
        k += 1;
    }
    proof {
        assert forall|j: int| 0 <= j < ev.len() implies (#[trigger] ev[j]).id != id@ by {
            crate::text::lemma_lex_irreflexive(id@);
        }
    }
    Err(k)
}

/// The destinations last seen, and how often each has been missed.
pub struct Destinations {
    entries: Vec<PrinterEntry>,
    misses: Vec<(String, u8)>,
    endpoints: Vec<(String, DnssdDeviceEndpoint)>,
}

impl Destinations {
    /// The destinations, in order of identifier.
    pub closed spec fn entries_of(&self) -> Seq<PrinterEntryView> {
        entries_view(self.entries@)
    }

    /// How many enumeration passes in a row have missed a destination.
    pub closed spec fn misses_of(&self, id: Seq<char>) -> u8 {
        misses_in(misses_view(self.misses@), id)
    }

    /// Where a DNS-SD service was last resolved to answer.
    pub closed spec fn endpoint_of(&self, service: Seq<char>) -> Option<DnssdDeviceEndpointView> {
        endpoint_in(endpoints_view(self.endpoints@), service)
    }

    /// A destination as it is kept: with the endpoint of the service its
    /// device URI names recorded in it, where that service was resolved.
    pub open spec fn resolve(&self, entry: PrinterEntryView) -> PrinterEntryView {
        match service_name_of(entry) {
            Some(service) => match self.endpoint_of(service) {
                Some(endpoint) => with_endpoint(entry, endpoint),
                None => entry,
            },
            None => entry,
        }
    }

    /// What a completed enumeration pass that listed `listed` does: a
    /// destination it listed stays with no misses; one it missed stays with
    /// one miss more, unless that makes two, when it is dropped and reported
    /// in `removed`; counts of identifiers no destination has are dropped;
    /// endpoints stay.
    pub open spec fn pass_applied(self, listed: Seq<Seq<char>>, after: Self, removed: Seq<Seq<char>>) -> bool {
        &&& after.wf()
        &&& forall|k: int| 0 <= k < self.entries_of().len() ==> {
            let e = #[trigger] self.entries_of()[k];
            let seen = listed.contains(e.id);
            &&& (after.entries_of().contains(e) <==> survives(self.misses_of(e.id), seen))
            &&& (removed.contains(e.id) <==> !survives(self.misses_of(e.id), seen))
            &&& after.misses_of(e.id) == misses_after(self.misses_of(e.id), seen)
        }
        &&& forall|e: PrinterEntryView| after.entries_of().contains(e) ==> self.entries_of().contains(e)
        &&& forall|id: Seq<char>| removed.contains(id) ==> exists|k: int| 0 <= k < self.entries_of().len()
            && (#[trigger] self.entries_of()[k]).id == id
        &&& forall|id: Seq<char>| !(exists|k: int| 0 <= k < self.entries_of().len() && (#[trigger] self.entries_of()[k]).id == id)
            ==> #[trigger] after.misses_of(id) == 0
        &&& forall|service: Seq<char>| #[trigger] after.endpoint_of(service) == self.endpoint_of(service)
    }

    /// What reading a destination does: it is kept as [`Self::resolve`]
    /// makes it, in place of any with its identifier; the others, the
    /// counts and the endpoints stay; `changed` says whether it was not
    /// already kept so.
    pub open spec fn read_recorded(self, incoming: PrinterEntryView, after: Self, changed: bool) -> bool {
        let stored = self.resolve(incoming);
        &&& after.wf()
        &&& changed == !(exists|k: int| 0 <= k < self.entries_of().len() && (#[trigger] self.entries_of()[k]) == stored)
        &&& exists|k: int| 0 <= k < after.entries_of().len() && (#[trigger] after.entries_of()[k]) == stored
        &&& forall|e: PrinterEntryView| e.id != incoming.id ==> (after.entries_of().contains(e) <==> self.entries_of().contains(e))
        &&& forall|k: int| 0 <= k < after.entries_of().len() && (#[trigger] after.entries_of()[k]).id == incoming.id
            ==> after.entries_of()[k] == stored
        &&& forall|id: Seq<char>| #[trigger] after.misses_of(id) == self.misses_of(id)
        &&& forall|service: Seq<char>| #[trigger] after.endpoint_of(service) == self.endpoint_of(service)
    }

    /// What resolving a DNS-SD service does: the endpoint is kept for the
    /// service and recorded in each destination that names it; `found` says
    /// whether one does, `changed` holds the identifiers of those it changed.
    pub open spec fn endpoint_recorded(
        self,
        service: Seq<char>,
        endpoint: DnssdDeviceEndpointView,
        after: Self,
        found: bool,
        changed: Seq<Seq<char>>,
    ) -> bool {
        &&& after.wf()
        &&& after.entries_of().len() == self.entries_of().len()
        &&& forall|k: int| 0 <= k < self.entries_of().len() ==> #[trigger] after.entries_of()[k] == if service_name_of(
            self.entries_of()[k],
        ) == Some(service) {
            with_endpoint(self.entries_of()[k], endpoint)
        } else {
            self.entries_of()[k]
        }
        &&& found == exists|k: int| 0 <= k < self.entries_of().len() && service_name_of(#[trigger] self.entries_of()[k]) == Some(
            service,
        )
        &&& forall|id: Seq<char>| changed.contains(id) <==> exists|k: int| 0 <= k < self.entries_of().len()
            && (#[trigger] self.entries_of()[k]).id == id && after.entries_of()[k] != self.entries_of()[k]
        &&& forall|other: Seq<char>| #[trigger] after.endpoint_of(other) == if other == service {
            Some(endpoint)
        } else {
            self.endpoint_of(other)
        }
        &&& forall|id: Seq<char>| #[trigger] after.misses_of(id) == self.misses_of(id)
    }

    /// What a DNS-SD service going away does: its endpoint is forgotten,
    /// the destinations stay as they are, and each that names the service
    /// counts one miss more.
    pub open spec fn advertisement_gone(self, service: Seq<char>, after: Self) -> bool {
        &&& after.wf()
        &&& after.entries_of() == self.entries_of()
        &&& forall|other: Seq<char>| #[trigger] after.endpoint_of(other) == if other == service {
            None
        } else {
            self.endpoint_of(other)
        }
        &&& forall|id: Seq<char>| #[trigger] after.misses_of(id) == if advertised_before(
            self.entries_of(),
            self.entries_of().len() as int,
            id,
            service,
        ) {
            next_misses(self.misses_of(id), false)
        } else {
            self.misses_of(id)
        }
    }

    pub closed spec fn wf(&self) -> bool {
        ids_increasing(entries_view(self.entries@))
    }

    /// No destination seen yet.
    pub fn new() -> (r: Self)
        ensures
            r.wf(),
            r.entries_of().len() == 0,
            forall|id: Seq<char>| r.misses_of(id) == 0,
            forall|service: Seq<char>| r.endpoint_of(service) is None,
    {
        Destinations { entries: Vec::new(), misses: Vec::new(), endpoints: Vec::new() }
    }

    fn position(&self, id: &str) -> (r: Result<usize, usize>)
        requires
            self.wf(),
        ensures
            match r {
                Ok(k) => k < self.entries@.len() && self.entries_of()[k as int].id == id@,
                Err(k) => k <= self.entries@.len() && (forall|j: int| 0 <= j < self.entries@.len() ==> (#[trigger] self.entries_of()[j]).id != id@)
                    && (forall|j: int| 0 <= j < k ==> lex_lt(#[trigger] self.entries_of()[j].id, id@))
                    && (forall|j: int| k <= j < self.entries@.len() ==> lex_lt(id@, #[trigger] self.entries_of()[j].id)),
            },
    {
        id_position(&self.entries, id)
    }

    /// The destination with this identifier, if it was seen.
    pub fn available_destination_cached(&self, id: &str) -> (r: Option<PrinterEntry>)
        requires
            self.wf(),
        ensures
            match r {
                Some(e) => exists|k: int| 0 <= k < self.entries_of().len() && (#[trigger] self.entries_of()[k]) == e@ && e@.id == id@,
                None => forall|k: int| 0 <= k < self.entries_of().len() ==> (#[trigger] self.entries_of()[k]).id != id@,
            },
    {
        match self.position(id) {
            Ok(k) => Some(entry_copy(&self.entries[k])),
            Err(_) => None,
        }
    }

    /// Every destination, in order of identifier.
    pub fn available_destinations_cached(&self) -> (r: Vec<PrinterEntry>)
        ensures
            entries_view(r@) == self.entries_of(),
    {
        let mut out: Vec<PrinterEntry> = Vec::new();
        let mut i: usize = 0;
        while i < self.entries.len()
            invariant
                i <= self.entries@.len(),
                out@.len() == i,
                forall|k: int| 0 <= k < i ==> (#[trigger] out@[k])@ == self.entries@[k]@,
            decreases self.entries.len() - i,
        {
            out.push(entry_copy(&self.entries[i]));
            i += 1;
        }
        proof {
            assert(entries_view(out@) =~= entries_view(self.entries@));
        }
        out
    }

    /// Forgets a destination the server no longer has, and says whether it
    /// was known.
    pub fn remove_available_destination(&mut self, id: &str) -> (r: bool)
        requires
            old(self).wf(),
        ensures
            final(self).wf(),
            r == exists|k: int| 0 <= k < old(self).entries_of().len() && (#[trigger] old(self).entries_of()[k]).id == id@,
            forall|e: PrinterEntryView| final(self).entries_of().contains(e) <==> (old(self).entries_of().contains(e) && e.id != id@),
            forall|other: Seq<char>| #[trigger] final(self).misses_of(other) == if other == id@ { 0 } else { old(self).misses_of(other) },
            forall|service: Seq<char>| #[trigger] final(self).endpoint_of(service) == old(self).endpoint_of(service),
    {
        let ghost before = entries_view(self.entries@);
        let ghost mb = misses_view(self.misses@);
        let pos = self.position(id);
        proof {
            assert(before == self.entries_of());
        }
        let found = match pos {
            Ok(k) => {
                self.entries.remove(k);
                proof {
                    let after = entries_view(self.entries@);
                    assert(after =~= before.remove(k as int));
                    assert(before[k as int].id == id@);
                    assert forall|a: int, b: int| 0 <= a < b < after.len() implies lex_lt(#[trigger] after[a].id, #[trigger] after[b].id) by {
                        let a0 = if a < k { a } else { a + 1 };
                        let b0 = if b < k { b } else { b + 1 };
                        assert(after[a] == before[a0] && after[b] == before[b0]);
                    }
                    assert forall|e: PrinterEntryView| after.contains(e) <==> (before.contains(e) && e.id != id@) by {
                        if after.contains(e) {
                            let j = choose|j: int| 0 <= j < after.len() && after[j] == e;
                            let j0 = if j < k { j } else { j + 1 };
                            assert(before[j0] == e);
                            if e.id == id@ {
                                crate::text::lemma_lex_irreflexive(id@);
                            }
                        }
                        if before.contains(e) && e.id != id@ {
                            let j = choose|j: int| 0 <= j < before.len() && before[j] == e;
                            if j < k {
                                assert(after[j] == e);
                            } else {
                                assert(after[j - 1] == e);
                            }
                        }
                    }
                }
                true
            },
            Err(_) => {
                proof {
                    assert forall|e: PrinterEntryView| before.contains(e) implies e.id != id@ by {
                        let j = choose|j: int| 0 <= j < before.len() && before[j] == e;
                        assert(self.entries_of()[j].id != id@);
                    }
                }
                false
            },
        };
        let kept = without_misses(&self.misses, id);
        self.misses = kept;
        found
    }

    /// Applies a completed enumeration that listed `present`: a destination
    /// it listed has not been missed; one it missed for the second pass in
    /// a row is dropped. Returns the dropped identifiers.
    #[verifier::spinoff_prover]
    #[verifier::rlimit(40)]
    pub fn retain_available_destinations(&mut self, present: &Vec<String>) -> (removed: Vec<String>)
        requires
            old(self).wf(),
        ensures
            old(self).pass_applied(strings_view(present@), *final(self), strings_view(removed@)),
    {
        let ghost ev = entries_view(self.entries@);
        let ghost mb = misses_view(self.misses@);
        let ghost pv = strings_view(present@);
        let mut rest: Vec<PrinterEntry> = Vec::new();
        std::mem::swap(&mut rest, &mut self.entries);
        let mut kept: Vec<PrinterEntry> = Vec::new();
        let mut misses: Vec<(String, u8)> = Vec::new();
        let mut removed: Vec<String> = Vec::new();
        let mut i: usize = 0;
        while i < rest.len()
            invariant
                i <= rest@.len(),
                ev == entries_view(rest@),
                ids_increasing(ev),
                pv == strings_view(present@),
                mb == misses_view(self.misses@),
                forall|t: int| 0 <= t < kept@.len() ==> exists|j: int| 0 <= j < i && (#[trigger] entries_view(kept@)[t]) == ev[j],
                ids_increasing(entries_view(kept@)),
                forall|j: int| 0 <= j < i ==> (entries_view(kept@).contains(#[trigger] ev[j]) <==> survives(
                    misses_in(mb, ev[j].id),
                    pv.contains(ev[j].id),
                )),
                forall|j: int| 0 <= j < i ==> (strings_view(removed@).contains(#[trigger] ev[j].id) <==> !survives(
                    misses_in(mb, ev[j].id),
                    pv.contains(ev[j].id),
                )),
                forall|id: Seq<char>| strings_view(removed@).contains(id) ==> seen_before(ev, i as int, id),
                misses_accounted(misses_view(misses@), mb, ev, pv, i as int),
            decreases rest.len() - i,
        {
            let e = entry_copy(&rest[i]);
            let ghost x = e@;
            proof {
                assert(x == ev[i as int]);
            }
            let listed = contains_string(present, e.id.as_str());
            let before_misses = misses_lookup(&self.misses, e.id.as_str());
            let count: u8 = if listed { 0 } else if before_misses < 255 { before_misses + 1 } else { 255 };
            let ghost kb = entries_view(kept@);
            let ghost rb = strings_view(removed@);
            let ghost mvb = misses_view(misses@);
            if !listed && count >= MISSES_BEFORE_DROPPING {
                removed.push(string_of(chars_of(e.id.as_str())));
                proof {
                    assert(strings_view(removed@) =~= rb.push(x.id));
                }
            } else {
                if !listed {
                    misses.push((string_of(chars_of(e.id.as_str())), count));
                    proof {
                        assert(misses_view(misses@) =~= mvb.push((x.id, count)));
                    }
                }
                kept.push(e);
                proof {
                    assert(entries_view(kept@) =~= kb.push(x));
                }
            }
            proof {
                let ka = entries_view(kept@);
                let ra = strings_view(removed@);
                let ma = misses_view(misses@);
                assert forall|j: int| 0 <= j < i implies #[trigger] ev[j].id != x.id by {
                    assert(lex_lt(ev[j].id, ev[i as int].id));
                    if ev[j].id == x.id {
                        crate::text::lemma_lex_irreflexive(x.id);
                    }
                }
                assert forall|t: int| 0 <= t < ka.len() implies exists|j: int| 0 <= j < i + 1 && (#[trigger] ka[t]) == ev[j] by {
                    if t < kb.len() {
                        assert(ka[t] == kb[t]);
                    } else {
                        assert(ka[t] == ev[i as int]);
                    }
                }
                assert forall|a: int, b: int| 0 <= a < b < ka.len() implies lex_lt(#[trigger] ka[a].id, #[trigger] ka[b].id) by {
                    if b < kb.len() {
                        assert(ka[a] == kb[a] && ka[b] == kb[b]);
                    } else {
                        assert(ka[a] == kb[a]);
                        let j = choose|j: int| 0 <= j < i && kb[a] == ev[j];
                        assert(lex_lt(ev[j].id, ev[i as int].id));
                    }
                }
                assert forall|j: int| 0 <= j < i + 1 implies (ka.contains(#[trigger] ev[j]) <==> survives(
                    misses_in(mb, ev[j].id),
                    pv.contains(ev[j].id),
                )) by {
                    if j < i {
                        if ka.contains(ev[j]) && !kb.contains(ev[j]) {
                            let t = choose|t: int| 0 <= t < ka.len() && ka[t] == ev[j];
                            assert(t == kb.len());
                            assert(ev[j].id == x.id);
                        }
                        if kb.contains(ev[j]) {
                            let t = choose|t: int| 0 <= t < kb.len() && kb[t] == ev[j];
                            assert(ka[t] == ev[j]);
                        }
                    } else {
                        if ka.contains(ev[j]) && !(listed || count < MISSES_BEFORE_DROPPING) {
                            let t = choose|t: int| 0 <= t < ka.len() && ka[t] == ev[j];
                            let j2 = choose|j2: int| 0 <= j2 < i && kb[t] == ev[j2];
                            assert(ev[j2].id == x.id);
                        }
                        if listed || count < MISSES_BEFORE_DROPPING {
                            assert(ka[kb.len() as int] == x);
                        }
                    }
                }
                assert forall|j: int| 0 <= j < i + 1 implies (ra.contains(#[trigger] ev[j].id) <==> !survives(
                    misses_in(mb, ev[j].id),
                    pv.contains(ev[j].id),
                )) by {
                    if j < i {
                        if ra.contains(ev[j].id) && !rb.contains(ev[j].id) {
                            let t = choose|t: int| 0 <= t < ra.len() && ra[t] == ev[j].id;
                            assert(ra[t] == x.id);
                        }
                        if rb.contains(ev[j].id) {
                            let t = choose|t: int| 0 <= t < rb.len() && rb[t] == ev[j].id;
                            assert(ra[t] == ev[j].id);
                        }
                    } else {
                        if ra.contains(x.id) && (listed || count < MISSES_BEFORE_DROPPING) {
                            let t = choose|t: int| 0 <= t < ra.len() && ra[t] == x.id;
                            assert(rb.contains(x.id));
                            assert(seen_before(ev, i as int, x.id));
                            let j2 = choose|j2: int| 0 <= j2 < i && (#[trigger] ev[j2]).id == x.id;
                        }
                        if !(listed || count < MISSES_BEFORE_DROPPING) {
                            assert(ra[rb.len() as int] == x.id);
                        }
                    }
                }
                assert forall|id: Seq<char>| ra.contains(id) implies seen_before(ev, i + 1, id) by {
                    if rb.contains(id) {
                        assert(seen_before(ev, i as int, id));
                        let j = choose|j: int| 0 <= j < i && (#[trigger] ev[j]).id == id;
                        assert(ev[j].id == id);
                    } else {
                        let t = choose|t: int| 0 <= t < ra.len() && ra[t] == id;
                        assert(t == rb.len());
                        assert(ev[i as int].id == id);
                    }
                }
                lemma_misses_step(mvb, ma, mb, ev, pv, i as int, listed, before_misses, count);
            }
            i += 1;
        }
        self.entries = kept;
        self.misses = misses;
        proof {
            let ka = entries_view(self.entries@);
            assert forall|e: PrinterEntryView| ka.contains(e) implies ev.contains(e) by {
                let t = choose|t: int| 0 <= t < ka.len() && ka[t] == e;
                let j = choose|j: int| 0 <= j < rest@.len() && (#[trigger] ka[t]) == ev[j];
            }
            assert(ev == old(self).entries_of());
            assert forall|id: Seq<char>| strings_view(removed@).contains(id) implies exists|k: int| 0 <= k < old(self).entries_of().len()
                && (#[trigger] old(self).entries_of()[k]).id == id by {
                assert(seen_before(ev, ev.len() as int, id));
                let j = choose|j: int| 0 <= j < ev.len() && (#[trigger] ev[j]).id == id;
                assert(old(self).entries_of()[j].id == id);
            }
            assert forall|id: Seq<char>| !(exists|k: int| 0 <= k < old(self).entries_of().len() && (#[trigger] old(self).entries_of()[k]).id == id)
                implies #[trigger] final(self).misses_of(id) == 0 by {
                assert(misses_in(misses_view(self.misses@), id) == if seen_before(ev, ev.len() as int, id) {
                    misses_after(misses_in(mb, id), pv.contains(id))
                } else {
                    0
                });
                if seen_before(ev, ev.len() as int, id) {
                    let j = choose|j: int| 0 <= j < ev.len() && (#[trigger] ev[j]).id == id;
                    assert(old(self).entries_of()[j].id == id);
                }
            }
        }
        removed
    }

    /// Records a destination as read, with the endpoint of the service it
    /// names where that was resolved, and says whether anything changed.
    pub fn update_available_destination(&mut self, incoming: PrinterEntry) -> (changed: bool)
        requires
            old(self).wf(),
        ensures
            old(self).read_recorded(incoming@, *final(self), changed),
    {
        let mut incoming = incoming;
        match device_service_name(&incoming) {
            Some(service) => match endpoint_lookup(&self.endpoints, service.as_str()) {
                Some(endpoint) => endpoint.apply_to(&mut incoming),
                None => {},
            },
            None => {},
        }
        let ghost before = entries_view(self.entries@);
        let ghost x = incoming@;
        let pos = self.position(incoming.id.as_str());
        proof {
            assert(before == self.entries_of());
            match pos {
                Err(k) => {
                    assert forall|j: int| k <= j < before.len() implies lex_lt(x.id, #[trigger] before[j].id) by {
                        assert(lex_lt(x.id, self.entries_of()[j].id));
                    }
                    assert forall|j: int| 0 <= j < k implies lex_lt(#[trigger] before[j].id, x.id) by {
                        assert(lex_lt(self.entries_of()[j].id, x.id));
                    }
                },
                Ok(k) => {
                    assert(before[k as int].id == x.id);
                },
            }
        }
        match pos {
            Ok(k) => {
                if same_entry(&self.entries[k], &incoming) {
                    proof {
                        assert(before[k as int] == x);
                        assert(self.entries_of()[k as int] == x);
                        assert forall|j: int| 0 <= j < before.len() && before[j].id == x.id implies j == k by {
                            if j != k {
                                if j < k {
                                    assert(lex_lt(before[j].id, before[k as int].id));
                                } else {
                                    assert(lex_lt(before[k as int].id, before[j].id));
                                }
                                crate::text::lemma_lex_irreflexive(x.id);
                            }
                        }
                    }
                    return false;
                }
                self.entries.set(k, incoming);
                proof {
                    let after = entries_view(self.entries@);
                    assert(after =~= before.update(k as int, x));
                    assert forall|j: int| 0 <= j < before.len() && before[j].id == x.id implies j == k by {
                        if j != k {
                            if j < k {
                                assert(lex_lt(before[j].id, before[k as int].id));
                            } else {
                                assert(lex_lt(before[k as int].id, before[j].id));
                            }
                            crate::text::lemma_lex_irreflexive(x.id);
                        }
                    }
                    assert(!before.contains(x)) by {
                        if before.contains(x) {
                            let j = choose|j: int| 0 <= j < before.len() && before[j] == x;
                        }
                    }
                    assert(after[k as int] == x);
                    assert(self.entries_of()[k as int] == x);
                    assert forall|e: PrinterEntryView| e.id != x.id implies (after.contains(e) <==> before.contains(e)) by {
                        if after.contains(e) {
                            let j = choose|j: int| 0 <= j < after.len() && after[j] == e;
                            assert(before[j] == e);
                        }
                        if before.contains(e) {
                            let j = choose|j: int| 0 <= j < before.len() && before[j] == e;
                            assert(after[j] == e);
                        }
                    }
                }
                true
            },
            Err(k) => {
                self.entries.insert(k, incoming);
                proof {
                    let after = entries_view(self.entries@);
                    assert(after =~= before.insert(k as int, x));
                    assert forall|a: int, b: int| 0 <= a < b < after.len() implies lex_lt(#[trigger] after[a].id, #[trigger] after[b].id) by {
                        if b < k {
                            assert(after[a] == before[a] && after[b] == before[b]);
                        } else if b == k {
                            assert(after[a] == before[a]);
                        } else if a == k {
                            assert(after[b] == before[b - 1]);
                        } else if a < k {
                            assert(after[a] == before[a] && after[b] == before[b - 1]);
                        } else {
                            assert(after[a] == before[a - 1] && after[b] == before[b - 1]);
                        }
                    }
                    assert(after[k as int] == x);
                    assert(self.entries_of()[k as int] == x);
                    assert(!before.contains(x)) by {
                        if before.contains(x) {
                            let j = choose|j: int| 0 <= j < before.len() && before[j] == x;
                            crate::text::lemma_lex_irreflexive(x.id);
                        }
                    }
                    assert forall|e: PrinterEntryView| e.id != x.id implies (after.contains(e) <==> before.contains(e)) by {
                        if after.contains(e) {
                            let j = choose|j: int| 0 <= j < after.len() && after[j] == e;
                            if j < k {
                                assert(before[j] == e);
                            } else if j > k {
                                assert(before[j - 1] == e);
                            }
                        }
                        if before.contains(e) {
                            let j = choose|j: int| 0 <= j < before.len() && before[j] == e;
                            if j < k {
                                assert(after[j] == e);
                            } else {
                                assert(after[j + 1] == e);
                            }
                        }
                    }
                }
                true
            },
        }
    }

    /// Records where a DNS-SD service answers, and records it in every
    /// destination whose device URI names that service. Says whether any
    /// destination names it, and which destinations changed.
    pub fn record_dnssd_device_endpoint(&mut self, service_name: String, endpoint: DnssdDeviceEndpoint) -> (r: (
        bool,
        Vec<String>,
    ))
        requires
            old(self).wf(),
        ensures
            old(self).endpoint_recorded(service_name@, endpoint@, *final(self), r.0, strings_view(r.1@)),
    {
        let ghost ev = entries_view(self.entries@);
        let mut changed: Vec<String> = Vec::new();
        let mut found = false;
        let mut i: usize = 0;
        while i < self.entries.len()
            invariant
                i <= self.entries@.len(),
                ev.len() == self.entries@.len(),
                ids_increasing(ev),
                forall|k: int| 0 <= k < i ==> #[trigger] entries_view(self.entries@)[k] == if service_name_of(ev[k]) == Some(
                    service_name@,
                ) {
                    with_endpoint(ev[k], endpoint@)
                } else {
                    ev[k]
                },
                forall|k: int| i <= k < ev.len() ==> #[trigger] entries_view(self.entries@)[k] == ev[k],
                found == exists|k: int| 0 <= k < i && service_name_of(#[trigger] ev[k]) == Some(service_name@),
                forall|id: Seq<char>| strings_view(changed@).contains(id) <==> exists|k: int| 0 <= k < i && (#[trigger] ev[k]).id == id
                    && entries_view(self.entries@)[k] != ev[k],
                self.endpoints == old(self).endpoints,
                self.misses == old(self).misses,
                ev == entries_view(old(self).entries@),
            decreases self.entries.len() - i,
        {
            let ghost cur = entries_view(self.entries@);
            let ghost cb = strings_view(changed@);
            let ghost x = ev[i as int];
            proof {
                assert(cur[i as int] == x);
            }
            let named = device_service_name(&self.entries[i]);
            let matches = match &named {
                Some(n) => crate::text::str_eq(n.as_str(), service_name.as_str()),
                None => false,
            };
            if matches {
                found = true;
                let mut updated = entry_copy(&self.entries[i]);
                endpoint.apply_to(&mut updated);
                if !same_entry(&updated, &self.entries[i]) {
                    changed.push(string_of(chars_of(self.entries[i].id.as_str())));
                    proof {
                        assert(strings_view(changed@) =~= cb.push(x.id));
                    }
                    self.entries.set(i, updated);
                    proof {
                        assert(entries_view(self.entries@) =~= cur.update(i as int, with_endpoint(x, endpoint@)));
                    }
                }
            }
            proof {
                let now = entries_view(self.entries@);
                let cn = strings_view(changed@);
                assert(now[i as int] == if service_name_of(x) == Some(service_name@) {
                    with_endpoint(x, endpoint@)
                } else {
                    x
                });
                assert forall|k: int| 0 <= k < i implies now[k] == cur[k] by {}
                assert forall|id: Seq<char>| cn.contains(id) <==> exists|k: int| 0 <= k < i + 1 && (#[trigger] ev[k]).id == id
                    && now[k] != ev[k] by {
                    if cn.contains(id) {
                        if cb.contains(id) {
                            let k = choose|k: int| 0 <= k < i && (#[trigger] ev[k]).id == id && cur[k] != ev[k];
                            assert(now[k] == cur[k]);
                        } else {
                            let t = choose|t: int| 0 <= t < cn.len() && cn[t] == id;
                            assert(t == cb.len());
                            assert(ev[i as int].id == id);
                        }
                    }
                    if exists|k: int| 0 <= k < i + 1 && (#[trigger] ev[k]).id == id && now[k] != ev[k] {
                        let k = choose|k: int| 0 <= k < i + 1 && (#[trigger] ev[k]).id == id && now[k] != ev[k];
                        if k < i {
                            assert(now[k] == cur[k]);
                            assert(cb.contains(id));
                            let t = choose|t: int| 0 <= t < cb.len() && cb[t] == id;
                            assert(cn[t] == id);
                        } else {
                            assert(cn[cb.len() as int] == id);
                        }
                    }
                }
                if found {
                    if !matches {
                        let k = choose|k: int| 0 <= k < i && service_name_of(#[trigger] ev[k]) == Some(service_name@);
                    } else {
                        assert(service_name_of(ev[i as int]) == Some(service_name@));
                    }
                }
                if exists|k: int| 0 <= k < i + 1 && service_name_of(#[trigger] ev[k]) == Some(service_name@) {
                    let k = choose|k: int| 0 <= k < i + 1 && service_name_of(#[trigger] ev[k]) == Some(service_name@);
                    if k == i {
                        assert(matches);
                    }
                }
            }
            i += 1;
        }
        proof {
            let now = entries_view(self.entries@);
            assert forall|a: int, b: int| 0 <= a < b < now.len() implies lex_lt(#[trigger] now[a].id, #[trigger] now[b].id) by {
                assert(now[a].id == ev[a].id);
                assert(now[b].id == ev[b].id);
            }
        }
        let mut endpoints = without_endpoint(&self.endpoints, service_name.as_str());
        let ghost kept = endpoints_view(endpoints@);
        endpoints.push((string_of(chars_of(service_name.as_str())), endpoint.copy()));
        proof {
            let now = endpoints_view(endpoints@);
            assert(now =~= kept.push((service_name@, endpoint@)));
            assert(now.drop_last() =~= kept);
            assert forall|service: Seq<char>| #[trigger] endpoint_in(now, service) == if service == service_name@ {
                Some(endpoint@)
            } else {
                endpoint_in(endpoints_view(old(self).endpoints@), service)
            } by {
                assert(now.last() == (service_name@, endpoint@));
                assert(endpoint_in(kept, service) == if service == service_name@ {
                    None
                } else {
                    endpoint_in(endpoints_view(old(self).endpoints@), service)
                });
            }
        }
        self.endpoints = endpoints;
        (found, changed)
    }

    /// Forgets where a DNS-SD service answered once it stops advertising
    /// itself. Destinations keep what was recorded in them; each that names
    /// the service counts one miss, so the next enumeration that misses it
    /// too drops it.
    pub fn remove_dnssd_device_endpoint(&mut self, service_name: &str)
        requires
            old(self).wf(),
        ensures
            old(self).advertisement_gone(service_name@, *final(self)),
    {
        let ghost ev = entries_view(self.entries@);
        let ghost mb = misses_view(self.misses@);
        let mut i: usize = 0;
        while i < self.entries.len()
            invariant
                i <= self.entries@.len(),
                ev == entries_view(self.entries@),
                ev == entries_view(old(self).entries@),
                ids_increasing(ev),
                mb == misses_view(old(self).misses@),
                self.endpoints == old(self).endpoints,
                misses_bumped(misses_view(self.misses@), mb, ev, service_name@, i as int),
            decreases self.entries.len() - i,
        {
            let ghost cur = misses_view(self.misses@);
            let named = device_service_name(&self.entries[i]);
            let matches = match &named {
                Some(n) => crate::text::str_eq(n.as_str(), service_name),
                None => false,
            };
            if matches {
                let was = misses_lookup(&self.misses, self.entries[i].id.as_str());
                let count: u8 = if was < 255 { was + 1 } else { 255 };
                self.misses = with_misses(&self.misses, self.entries[i].id.as_str(), count);
            }
            proof {
                lemma_bump_step(cur, misses_view(self.misses@), mb, ev, service_name@, i as int, matches);
            }
            i += 1;
        }
        self.endpoints = without_endpoint(&self.endpoints, service_name);
    }
}

/// A destination that two enumeration passes in a row miss is gone after
/// the second.
pub proof fn law_two_missed_passes_drop(
    d0: Destinations,
    listed0: Seq<Seq<char>>,
    d1: Destinations,
    removed1: Seq<Seq<char>>,
    listed1: Seq<Seq<char>>,
    d2: Destinations,
    removed2: Seq<Seq<char>>,
    id: Seq<char>,
)
    requires
        d0.wf(),
        d0.pass_applied(listed0, d1, removed1),
        d1.pass_applied(listed1, d2, removed2),
        !listed0.contains(id),
        !listed1.contains(id),
    ensures
        forall|k: int| 0 <= k < d2.entries_of().len() ==> (#[trigger] d2.entries_of()[k]).id != id,
{
    assert forall|k: int| 0 <= k < d2.entries_of().len() implies (#[trigger] d2.entries_of()[k]).id != id by {
        if d2.entries_of()[k].id == id {
            let e = d2.entries_of()[k];
            assert(d2.entries_of().contains(e));
            assert(d1.entries_of().contains(e));
            assert(d0.entries_of().contains(e));
            let k0 = choose|k0: int| 0 <= k0 < d0.entries_of().len() && d0.entries_of()[k0] == e;
            let k1 = choose|k1: int| 0 <= k1 < d1.entries_of().len() && d1.entries_of()[k1] == e;
            assert(d0.entries_of()[k0] == e);
            assert(d1.entries_of()[k1] == e);
        }
    }
}

/// A destination no pass has missed yet stays through one pass that misses
/// it.
pub proof fn law_one_missed_pass_keeps(
    d0: Destinations,
    listed: Seq<Seq<char>>,
    d1: Destinations,
    removed: Seq<Seq<char>>,
    k: int,
)
    requires
        d0.wf(),
        d0.pass_applied(listed, d1, removed),
        0 <= k < d0.entries_of().len(),
        d0.misses_of(d0.entries_of()[k].id) == 0,
    ensures
        d1.entries_of().contains(d0.entries_of()[k]),
        !removed.contains(d0.entries_of()[k].id),
{
    let e = d0.entries_of()[k];
}

/// A pass that lists a destination keeps it and starts its count over.
pub proof fn law_seen_again_starts_over(
    d0: Destinations,
    listed: Seq<Seq<char>>,
    d1: Destinations,
    removed: Seq<Seq<char>>,
    k: int,
)
    requires
        d0.wf(),
        d0.pass_applied(listed, d1, removed),
        0 <= k < d0.entries_of().len(),
        listed.contains(d0.entries_of()[k].id),
    ensures
        d1.entries_of().contains(d0.entries_of()[k]),
        d1.misses_of(d0.entries_of()[k].id) == 0,
{
    let e = d0.entries_of()[k];
}

/// Identifiers are unique among the destinations kept.
proof fn lemma_ids_unique(d: Destinations, a: int, b: int)
    requires
        d.wf(),
        0 <= a < d.entries_of().len(),
        0 <= b < d.entries_of().len(),
        d.entries_of()[a].id == d.entries_of()[b].id,
    ensures
        a == b,
{
    if a < b {
        assert(lex_lt(d.entries_of()[a].id, d.entries_of()[b].id));
        crate::text::lemma_lex_irreflexive(d.entries_of()[a].id);
    } else if b < a {
        assert(lex_lt(d.entries_of()[b].id, d.entries_of()[a].id));
        crate::text::lemma_lex_irreflexive(d.entries_of()[a].id);
    }
}

/// A destination whose DNS-SD advertisement went away is gone after the
/// next pass that misses it.
pub proof fn law_gone_advertisement_drops_on_next_miss(
    d0: Destinations,
    service: Seq<char>,
    d1: Destinations,
    listed: Seq<Seq<char>>,
    d2: Destinations,
    removed: Seq<Seq<char>>,
    k: int,
)
    requires
        d0.wf(),
        d0.advertisement_gone(service, d1),
        d1.pass_applied(listed, d2, removed),
        0 <= k < d0.entries_of().len(),
        service_name_of(d0.entries_of()[k]) == Some(service),
        !listed.contains(d0.entries_of()[k].id),
    ensures
        forall|j: int| 0 <= j < d2.entries_of().len() ==> (#[trigger] d2.entries_of()[j]).id != d0.entries_of()[k].id,
{
    let e = d0.entries_of()[k];
    assert(advertised_before(d0.entries_of(), d0.entries_of().len() as int, e.id, service)) by {
        assert(d0.entries_of()[k].id == e.id);
    }
    assert(d1.entries_of()[k] == e);
    assert forall|j: int| 0 <= j < d2.entries_of().len() implies (#[trigger] d2.entries_of()[j]).id != e.id by {
        if d2.entries_of()[j].id == e.id {
            let f = d2.entries_of()[j];
            assert(d2.entries_of().contains(f));
            assert(d1.entries_of().contains(f));
            let k1 = choose|k1: int| 0 <= k1 < d1.entries_of().len() && d1.entries_of()[k1] == f;
            lemma_ids_unique(d1, k1, k);
        }
    }
}

/// A destination still enumerated outlives its DNS-SD advertisement: a
/// pass that lists it starts the count over, so one later miss keeps it.
pub proof fn law_enumerated_outlives_advertisement(
    d0: Destinations,
    service: Seq<char>,
    d1: Destinations,
    listed1: Seq<Seq<char>>,
    d2: Destinations,
    removed2: Seq<Seq<char>>,
    listed2: Seq<Seq<char>>,
    d3: Destinations,
    removed3: Seq<Seq<char>>,
    k: int,
)
    requires
        d0.wf(),
        d0.advertisement_gone(service, d1),
        d1.pass_applied(listed1, d2, removed2),
        d2.pass_applied(listed2, d3, removed3),
        0 <= k < d0.entries_of().len(),
        listed1.contains(d0.entries_of()[k].id),
    ensures
        d3.entries_of().contains(d0.entries_of()[k]),
{
    let e = d0.entries_of()[k];
    assert(d1.entries_of()[k] == e);
    assert(d2.entries_of().contains(e));
    let k2 = choose|k2: int| 0 <= k2 < d2.entries_of().len() && d2.entries_of()[k2] == e;
    assert(d2.entries_of()[k2] == e);
}

/// A destination and the resolution of the DNS-SD service it names end the
/// same whichever arrives first: the destination carries the endpoint.
pub proof fn law_endpoint_applies_in_either_order(
    d0: Destinations,
    service: Seq<char>,
    endpoint: DnssdDeviceEndpointView,
    incoming: PrinterEntryView,
    a1: Destinations,
    a_found: bool,
    a_changed: Seq<Seq<char>>,
    a2: Destinations,
    a_read: bool,
    b1: Destinations,
    b_read: bool,
    b2: Destinations,
    b_found: bool,
    b_changed: Seq<Seq<char>>,
)
    requires
        d0.wf(),
        d0.endpoint_of(service) is None,
        service_name_of(incoming) == Some(service),
        d0.endpoint_recorded(service, endpoint, a1, a_found, a_changed),
        a1.read_recorded(incoming, a2, a_read),
        d0.read_recorded(incoming, b1, b_read),
        b1.endpoint_recorded(service, endpoint, b2, b_found, b_changed),
    ensures
        exists|k: int| 0 <= k < a2.entries_of().len() && (#[trigger] a2.entries_of()[k]) == with_endpoint(incoming, endpoint),
        exists|k: int| 0 <= k < b2.entries_of().len() && (#[trigger] b2.entries_of()[k]) == with_endpoint(incoming, endpoint),
        forall|k: int| 0 <= k < a2.entries_of().len() && (#[trigger] a2.entries_of()[k]).id == incoming.id
            ==> a2.entries_of()[k] == with_endpoint(incoming, endpoint),
        forall|k: int| 0 <= k < b2.entries_of().len() && (#[trigger] b2.entries_of()[k]).id == incoming.id
            ==> b2.entries_of()[k] == with_endpoint(incoming, endpoint),
{
    assert(a1.endpoint_of(service) == Some(endpoint));
    assert(d0.resolve(incoming) == incoming);
    let k1 = choose|k1: int| 0 <= k1 < b1.entries_of().len() && (#[trigger] b1.entries_of()[k1]) == incoming;
    assert(b2.entries_of()[k1] == with_endpoint(incoming, endpoint));
    assert forall|k: int| 0 <= k < b2.entries_of().len() && (#[trigger] b2.entries_of()[k]).id == incoming.id
        implies b2.entries_of()[k] == with_endpoint(incoming, endpoint) by {
        assert(b2.entries_of()[k].id == b1.entries_of()[k].id);
        assert(b1.entries_of()[k] == incoming);
    }
}

/// A destination read after the DNS-SD service it names was resolved reads
/// the resolved endpoint, whatever it reported itself.
pub proof fn law_resolved_endpoint_wins(
    d0: Destinations,
    service: Seq<char>,
    endpoint: DnssdDeviceEndpointView,
    incoming: PrinterEntryView,
    d1: Destinations,
    changed: bool,
    k: int,
)
    requires
        d0.wf(),
        d0.endpoint_of(service) == Some(endpoint),
        service_name_of(incoming) == Some(service),
        d0.read_recorded(incoming, d1, changed),
        0 <= k < d1.entries_of().len(),
        d1.entries_of()[k].id == incoming.id,
    ensures
        option_value(d1.entries_of()[k].options, "dnssd-hostname"@) == Some(endpoint.hostname),
        option_value(d1.entries_of()[k].options, "dnssd-port"@) == Some(decimal(endpoint.port as nat)),
        option_value(d1.entries_of()[k].options, "endpoint-is-local"@) == Some(flag_text(endpoint.is_local)),
        endpoint.address is Some ==> option_value(d1.entries_of()[k].options, "endpoint-address"@) == endpoint.address,
{
    let o = incoming.options;
    let host = with_option(o, "dnssd-hostname"@, endpoint.hostname);
    let port = with_option(host, "dnssd-port"@, decimal(endpoint.port as nat));
    let local = with_option(port, "endpoint-is-local"@, flag_text(endpoint.is_local));
    assert(d1.entries_of()[k] == with_endpoint(incoming, endpoint));
    reveal_strlit("dnssd-hostname");
    reveal_strlit("dnssd-port");
    reveal_strlit("endpoint-is-local");
    reveal_strlit("endpoint-address");
    assert("dnssd-hostname"@.len() == 14 && "dnssd-port"@.len() == 10 && "endpoint-is-local"@.len() == 17
        && "endpoint-address"@.len() == 16);
    lemma_with_option_reads(o, "dnssd-hostname"@, endpoint.hostname, "dnssd-hostname"@);
    lemma_with_option_reads(host, "dnssd-port"@, decimal(endpoint.port as nat), "dnssd-hostname"@);
    lemma_with_option_reads(host, "dnssd-port"@, decimal(endpoint.port as nat), "dnssd-port"@);
    lemma_with_option_reads(port, "endpoint-is-local"@, flag_text(endpoint.is_local), "dnssd-hostname"@);
    lemma_with_option_reads(port, "endpoint-is-local"@, flag_text(endpoint.is_local), "dnssd-port"@);
    lemma_with_option_reads(port, "endpoint-is-local"@, flag_text(endpoint.is_local), "endpoint-is-local"@);
    match endpoint.address {
        Some(address) => {
            assert(d1.entries_of()[k].options == with_option(local, "endpoint-address"@, address));
            assert(option_value(local, "dnssd-hostname"@) == Some(endpoint.hostname));
            lemma_with_option_reads(local, "endpoint-address"@, address, "dnssd-hostname"@);
            lemma_with_option_reads(local, "endpoint-address"@, address, "dnssd-port"@);
            lemma_with_option_reads(local, "endpoint-address"@, address, "endpoint-is-local"@);
            lemma_with_option_reads(local, "endpoint-address"@, address, "endpoint-address"@);
        },
        None => {},
    }
}

} // verus!
