//! The printer list: the printers shown, in order of identifier, which one
//! is the default, the job counts shown beside them, and the printer whose
//! menu is open; and how one changed printer read again updates it.

use vstd::prelude::*;
use crate::application::PrinterApplication;
use crate::destinations::{id_position, ids_increasing};
use crate::entry::{PrinterEntry, PrinterEntryView, entries_view};
use crate::ipp::opt_view;
use crate::text::{chars_of, eq_vec, lex_lt, string_of};

verus! {

/// What the printer list shows.
pub struct PrinterList {
    /// The printers, in order of identifier.
    pub printers: Vec<PrinterEntry>,
    pub default_printer_id: Option<String>,
    /// Active job counts by printer identifier.
    pub active_job_counts: Vec<(String, usize)>,
    /// The printer whose menu is open.
    pub printer_context: Option<String>,
    /// The Printer Applications the printers are grouped under.
    pub printer_applications: Vec<PrinterApplication>,
}

/// The printers and applications one full read returned.
pub struct PrintersLoad {
    pub printers: Vec<PrinterEntry>,
    pub printer_applications: Vec<PrinterApplication>,
}

/// What the list asks for after a printer was read again.
#[derive(Clone, Copy, Debug, PartialEq, Eq, Structural)]
pub struct ListFollowUp {
    /// Whether the details page gets the refreshed list.
    pub refresh_details: bool,
    /// Whether the printer's active jobs are counted again.
    pub reload_jobs: bool,
}

pub open spec fn counts_view(counts: Seq<(String, usize)>) -> Seq<(Seq<char>, usize)> {
    counts.map_values(|c: (String, usize)| (c.0@, c.1))
}

impl PrinterList {
    /// The printers are in strictly increasing order of identifier.
    pub open spec fn wf(&self) -> bool {
        ids_increasing(entries_view(self.printers@))
    }
}

/// Whether a printer with this identifier is listed.
pub open spec fn lists(printers: Seq<PrinterEntryView>, id: Seq<char>) -> bool {
    exists|k: int| 0 <= k < printers.len() && (#[trigger] printers[k]).id == id
}

/// Where an identifier not listed goes among printers in order.
pub open spec fn is_insertion_point(printers: Seq<PrinterEntryView>, id: Seq<char>, k: int) -> bool {
    &&& 0 <= k <= printers.len()
    &&& forall|j: int| 0 <= j < k ==> lex_lt(#[trigger] printers[j].id, id)
    &&& forall|j: int| k <= j < printers.len() ==> lex_lt(id, #[trigger] printers[j].id)
}

/// The printers with `printer` put in place: in place of the one with its
/// identifier, or else where its identifier belongs in order.
pub open spec fn placed(printers: Seq<PrinterEntryView>, printer: PrinterEntryView) -> Seq<PrinterEntryView> {
    if lists(printers, printer.id) {
        printers.update(choose|k: int| 0 <= k < printers.len() && (#[trigger] printers[k]).id == printer.id, printer)
    } else {
        printers.insert(choose|k: int| is_insertion_point(printers, printer.id, k), printer)
    }
}

/// The printers with only the one with identifier `id` marked default.
pub open spec fn only_default(printers: Seq<PrinterEntryView>, id: Seq<char>) -> Seq<PrinterEntryView> {
    printers.map_values(|e: PrinterEntryView| PrinterEntryView { is_default: e.id == id, ..e })
}

/// The printers without the one with identifier `id`.
pub open spec fn without_printer(printers: Seq<PrinterEntryView>, id: Seq<char>) -> Seq<PrinterEntryView> {
    printers.filter(|e: PrinterEntryView| e.id != id)
}

/// The job counts without the one of `id`.
pub open spec fn without_count(counts: Seq<(Seq<char>, usize)>, id: Seq<char>) -> Seq<(Seq<char>, usize)> {
    counts.filter(|c: (Seq<char>, usize)| c.0 != id)
}

/// What reading printer `id` again does to the list.
pub open spec fn printer_loaded(
    before: PrinterList,
    id: Seq<char>,
    read: Result<Option<PrinterEntryView>, ()>,
    after: PrinterList,
    r: ListFollowUp,
) -> bool {
    let old_printers = entries_view(before.printers@);
    let new_printers = entries_view(after.printers@);
    match read {
        Err(_) => {
            &&& new_printers == old_printers
            &&& opt_view(after.default_printer_id) == opt_view(before.default_printer_id)
            &&& counts_view(after.active_job_counts@) == counts_view(before.active_job_counts@)
            &&& opt_view(after.printer_context) == opt_view(before.printer_context)
            &&& r == ListFollowUp { refresh_details: false, reload_jobs: false }
        },
        Ok(Some(p)) => {
            &&& new_printers == if p.is_default {
                only_default(placed(old_printers, p), id)
            } else {
                placed(old_printers, p)
            }
            &&& opt_view(after.default_printer_id) == if p.is_default {
                Some(id)
            } else if opt_view(before.default_printer_id) == Some(id) {
                None
            } else {
                opt_view(before.default_printer_id)
            }
            &&& counts_view(after.active_job_counts@) == counts_view(before.active_job_counts@)
            &&& opt_view(after.printer_context) == opt_view(before.printer_context)
            &&& r == ListFollowUp { refresh_details: true, reload_jobs: true }
        },
        Ok(None) => {
            &&& new_printers == without_printer(old_printers, id)
            &&& counts_view(after.active_job_counts@) == without_count(counts_view(before.active_job_counts@), id)
            &&& opt_view(after.default_printer_id) == if opt_view(before.default_printer_id) == Some(id) {
                None
            } else {
                opt_view(before.default_printer_id)
            }
            &&& opt_view(after.printer_context) == if opt_view(before.printer_context) == Some(id) {
                None
            } else {
                opt_view(before.printer_context)
            }
            &&& r == ListFollowUp { refresh_details: true, reload_jobs: false }
        },
    }
}

pub open spec fn read_view(result: Result<Option<PrinterEntry>, String>) -> Result<Option<PrinterEntryView>, ()> {
    match result {
        Ok(Some(p)) => Ok(Some(p@)),
        Ok(None) => Ok(None),
        Err(_) => Err(()),
    }
}

proof fn lemma_insertion_point_unique(printers: Seq<PrinterEntryView>, id: Seq<char>, a: int, b: int)
    requires
        is_insertion_point(printers, id, a),
        is_insertion_point(printers, id, b),
    ensures
        a == b,
{
    if a < b {
        assert(lex_lt(printers[a].id, id));
        assert(lex_lt(id, printers[a].id));
        crate::text::lemma_lex_transitive(id, printers[a].id, id);
        crate::text::lemma_lex_irreflexive(id);
    } else if b < a {
        assert(lex_lt(printers[b].id, id));
        assert(lex_lt(id, printers[b].id));
        crate::text::lemma_lex_transitive(id, printers[b].id, id);
        crate::text::lemma_lex_irreflexive(id);
    }
}

proof fn lemma_listed_once(printers: Seq<PrinterEntryView>, a: int, b: int)
    requires
        ids_increasing(printers),
        0 <= a < printers.len(),
        0 <= b < printers.len(),
        printers[a].id == printers[b].id,
    ensures
        a == b,
{
    if a < b {
        assert(lex_lt(printers[a].id, printers[b].id));
        crate::text::lemma_lex_irreflexive(printers[a].id);
    } else if b < a {
        assert(lex_lt(printers[b].id, printers[a].id));
        crate::text::lemma_lex_irreflexive(printers[a].id);
    }
}

/// Marks only the printer with identifier `id` as default.
fn mark_only_default(printers: &mut Vec<PrinterEntry>, id: &str)
    ensures
        entries_view(final(printers)@) == only_default(entries_view(old(printers)@), id@),
{
    let ghost before = entries_view(printers@);
    let wanted = chars_of(id);
    let mut rest: Vec<PrinterEntry> = Vec::new();
    std::mem::swap(&mut rest, printers);
    let mut done: Vec<PrinterEntry> = Vec::new();
    while rest.len() > 0
        invariant
            done@.len() + rest@.len() == before.len(),
            entries_view(rest@) == before.skip(done@.len() as int),
            entries_view(done@) == only_default(before, id@).take(done@.len() as int),
            wanted@ == id@,
        decreases rest@.len(),
    {
        let ghost n: int = done@.len() as int;
        let ghost rb = entries_view(rest@);
        let mut e = rest.remove(0);
        proof {
            assert(e@ == rb[0]);
            assert(entries_view(rest@) =~= rb.drop_first());
            assert(rb.drop_first() =~= before.skip(n + 1));
        }
        e.is_default = eq_vec(&chars_of(e.id.as_str()), &wanted);
        let ghost db = entries_view(done@);
        done.push(e);
        proof {
            assert(entries_view(done@) =~= only_default(before, id@).take(n + 1));
        }
    }
    proof {
        assert(only_default(before, id@).take(before.len() as int) =~= only_default(before, id@));
    }
    *printers = done;
}

/// The job counts without the one of `id`.
fn drop_count(counts: &Vec<(String, usize)>, id: &str) -> (r: Vec<(String, usize)>)
    ensures
        counts_view(r@) == without_count(counts_view(counts@), id@),
{
    let ghost all = counts_view(counts@);
    let wanted = chars_of(id);
    let mut kept: Vec<(String, usize)> = Vec::new();
    let mut i: usize = 0;
    proof {
        reveal(Seq::filter);
        assert(counts_view(kept@) =~= without_count(all.take(0), id@));
    }
    while i < counts.len()
        invariant
            i <= counts@.len(),
            all == counts_view(counts@),
            wanted@ == id@,
            counts_view(kept@) == without_count(all.take(i as int), id@),
        decreases counts.len() - i,
    {
        proof {
            reveal(Seq::filter);
            assert(all.take(i + 1).drop_last() =~= all.take(i as int));
            assert(all[i as int] == (counts@[i as int].0@, counts@[i as int].1));
        }
        if !eq_vec(&chars_of(counts[i].0.as_str()), &wanted) {
            let ghost prev = counts_view(kept@);
            kept.push((string_of(chars_of(counts[i].0.as_str())), counts[i].1));
            proof {
                assert(counts_view(kept@) =~= prev.push(all[i as int]));
            }
        }
        i += 1;
    }
    proof {
        assert(all.take(counts@.len() as int) =~= all);
    }
    kept
}

fn same_id(value: &Option<String>, id: &str) -> (r: bool)
    ensures
        r == (opt_view(*value) == Some(id@)),
{
    match value {
        Some(v) => crate::text::str_eq(v.as_str(), id),
        None => false,
    }
}

/// Applies one printer read again: a failed read changes nothing; a
/// printer read takes the place of the one with its identifier, or goes
/// where its identifier belongs, and becomes the only default when it is
/// the default; a printer gone leaves the list, its job count, and the
/// default and the open menu if they were its. The details page is sent
/// the list after any read, and the printer's jobs are counted again when
/// it is still listed.
pub fn apply_printer_load(list: &mut PrinterList, printer_id: &str, result: Result<Option<PrinterEntry>, String>) -> (r:
    ListFollowUp)
    requires
        old(list).wf(),
        result matches Ok(Some(p)) ==> p@.id == printer_id@,
    ensures
        final(list).wf(),
        printer_loaded(*old(list), printer_id@, read_view(result), *final(list), r),
        final(list).printer_applications@ == old(list).printer_applications@,
{
    let ghost before = entries_view(list.printers@);
    let ghost read = read_view(result);
    match result {
        Err(_) => ListFollowUp { refresh_details: false, reload_jobs: false },
        Ok(Some(printer)) => {
            let ghost x = printer@;
            let is_default = printer.is_default;
            let position = id_position(&list.printers, printer_id);
            match position {
                Ok(k) => {
                    list.printers.set(k, printer);
                    proof {
                        assert(lists(before, x.id)) by {
                            assert(before[k as int].id == x.id);
                        }
                        let c = choose|c: int| 0 <= c < before.len() && (#[trigger] before[c]).id == x.id;
                        lemma_listed_once(before, c, k as int);
                        assert(entries_view(list.printers@) =~= placed(before, x));
                    }
                },
                Err(k) => {
                    list.printers.insert(k, printer);
                    proof {
                        assert(!lists(before, x.id));
                        assert(is_insertion_point(before, x.id, k as int));
                        let c = choose|c: int| is_insertion_point(before, x.id, c);
                        lemma_insertion_point_unique(before, x.id, c, k as int);
                        assert(entries_view(list.printers@) =~= placed(before, x));
                    }
                },
            }
            let ghost after_place = entries_view(list.printers@);
            proof {
                assert forall|a: int, b: int| 0 <= a < b < after_place.len() implies lex_lt(
                    #[trigger] after_place[a].id,
                    #[trigger] after_place[b].id,
                ) by {
                    match position {
                        Ok(k) => {
                            assert(after_place[a].id == before[a].id);
                            assert(after_place[b].id == before[b].id);
                        },
                        Err(k) => {
                            let k = k as int;
                            if b < k {
                                assert(after_place[a] == before[a] && after_place[b] == before[b]);
                            } else if b == k {
                                assert(after_place[a] == before[a]);
                            } else if a == k {
                                assert(after_place[b] == before[b - 1]);
                            } else if a < k {
                                assert(after_place[a] == before[a] && after_place[b] == before[b - 1]);
                            } else {
                                assert(after_place[a] == before[a - 1] && after_place[b] == before[b - 1]);
                            }
                        },
                    }
                }
            }
            if is_default {
                list.default_printer_id = Some(string_of(chars_of(printer_id)));
                mark_only_default(&mut list.printers, printer_id);
                proof {
                    let now = entries_view(list.printers@);
                    assert forall|a: int, b: int| 0 <= a < b < now.len() implies lex_lt(
                        #[trigger] now[a].id,
                        #[trigger] now[b].id,
                    ) by {
                        assert(now[a].id == after_place[a].id && now[b].id == after_place[b].id);
                    }
                }
            } else if same_id(&list.default_printer_id, printer_id) {
                list.default_printer_id = None;
            }
            ListFollowUp { refresh_details: true, reload_jobs: true }
        },
        Ok(None) => {
            match id_position(&list.printers, printer_id) {
                Ok(k) => {
                    list.printers.remove(k);
                    proof {
                        let now = entries_view(list.printers@);
                        assert(now =~= before.remove(k as int));
                        reveal(Seq::filter);
                        assert forall|j: int| 0 <= j < before.len() && j != k implies before[j].id != printer_id@ by {
                            if before[j].id == printer_id@ {
                                lemma_listed_once(before, j, k as int);
                            }
                        }
                        lemma_filter_without_one(before, printer_id@, k as int);
                        assert forall|a: int, b: int| 0 <= a < b < now.len() implies lex_lt(
                            #[trigger] now[a].id,
                            #[trigger] now[b].id,
                        ) by {
                            let a0 = if a < k { a } else { a + 1 };
                            let b0 = if b < k { b } else { b + 1 };
                            assert(now[a] == before[a0] && now[b] == before[b0]);
                        }
                    }
                },
                Err(_) => {
                    proof {
                        lemma_filter_none(before, printer_id@);
                    }
                },
            }
            list.active_job_counts = drop_count(&list.active_job_counts, printer_id);
            if same_id(&list.default_printer_id, printer_id) {
                list.default_printer_id = None;
            }
            if same_id(&list.printer_context, printer_id) {
                list.printer_context = None;
            }
            ListFollowUp { refresh_details: true, reload_jobs: false }
        },
    }
}

proof fn lemma_filter_none(printers: Seq<PrinterEntryView>, id: Seq<char>)
    requires
        forall|j: int| 0 <= j < printers.len() ==> (#[trigger] printers[j]).id != id,
    ensures
        without_printer(printers, id) == printers,
    decreases printers.len(),
{
    reveal(Seq::filter);
    if printers.len() > 0 {
        lemma_filter_none(printers.drop_last(), id);
        assert(printers.drop_last().push(printers.last()) =~= printers);
    } else {
        assert(without_printer(printers, id) =~= printers);
    }
}

proof fn lemma_filter_without_one(printers: Seq<PrinterEntryView>, id: Seq<char>, k: int)
    requires
        0 <= k < printers.len(),
        printers[k].id == id,
        forall|j: int| 0 <= j < printers.len() && j != k ==> printers[j].id != id,
    ensures
        without_printer(printers, id) == printers.remove(k),
    decreases printers.len(),
{
    reveal(Seq::filter);
    let n = printers.len() - 1;
    if k == n {
        assert forall|j: int| 0 <= j < printers.drop_last().len() implies (#[trigger] printers.drop_last()[j]).id != id by {
            assert(printers.drop_last()[j] == printers[j]);
        }
        lemma_filter_none(printers.drop_last(), id);
        assert(printers.remove(k) =~= printers.drop_last());
    } else {
        let init = printers.drop_last();
        assert forall|j: int| 0 <= j < init.len() && j != k implies init[j].id != id by {
            assert(init[j] == printers[j]);
        }
        lemma_filter_without_one(init, id, k);
        assert(printers.remove(k) =~= init.remove(k).push(printers.last()));
    }
}

/// The identifier of the first printer marked default.
pub open spec fn first_default(printers: Seq<PrinterEntryView>) -> Option<Seq<char>>
    decreases printers.len(),
{
    if printers.len() == 0 {
        None
    } else if printers[0].is_default {
        Some(printers[0].id)
    } else {
        first_default(printers.drop_first())
    }
}

/// Where the first printer with identifier `id` stands.
pub open spec fn first_index(printers: Seq<PrinterEntryView>, id: Seq<char>) -> Option<int>
    decreases printers.len(),
{
    if printers.len() == 0 {
        None
    } else if printers[0].id == id {
        Some(0)
    } else {
        match first_index(printers.drop_first(), id) {
            Some(k) => Some(k + 1),
            None => None,
        }
    }
}

/// The job count shown for `id`: the first one recorded for it, else none.
pub open spec fn count_of(counts: Seq<(Seq<char>, usize)>, id: Seq<char>) -> usize
    decreases counts.len(),
{
    if counts.len() == 0 {
        0
    } else if counts[0].0 == id {
        counts[0].1
    } else {
        count_of(counts.drop_first(), id)
    }
}

/// The job counts of the printers listed.
pub open spec fn counts_of_listed(counts: Seq<(Seq<char>, usize)>, printers: Seq<PrinterEntryView>) -> Seq<(
    Seq<char>,
    usize,
)> {
    counts.filter(|c: (Seq<char>, usize)| lists(printers, c.0))
}

/// The entry of the default-printer selector that is selected: the
/// default printer's place in the list counted from one, or the entry
/// "not set" (zero) when there is no default or it is not listed.
pub open spec fn selection_of(list: PrinterList) -> usize {
    match opt_view(list.default_printer_id) {
        Some(d) => match first_index(entries_view(list.printers@), d) {
            Some(k) => (k + 1) as usize,
            None => 0,
        },
        None => 0,
    }
}

/// The printer an entry of the default-printer selector stands for: none
/// for the entry "not set" (zero) and for one past the list.
pub open spec fn selected_printer(printers: Seq<PrinterEntryView>, index: usize) -> Option<Seq<char>> {
    if 1 <= index <= printers.len() {
        Some(printers[index - 1].id)
    } else {
        None
    }
}

fn first_index_exec(printers: &Vec<PrinterEntry>, id: &str) -> (r: Option<usize>)
    ensures
        match first_index(entries_view(printers@), id@) {
            Some(k) => r == Some(k as usize),
            None => r is None,
        },
        first_index(entries_view(printers@), id@) matches Some(k) ==> 0 <= k < printers@.len(),
        r matches Some(k) ==> k < printers@.len(),
{
    let ghost all = entries_view(printers@);
    proof {
        lemma_first_index_bounds(all, id@);
        assert(all.skip(0) =~= all);
    }
    let mut i: usize = 0;
    while i < printers.len()
        invariant
            i <= printers@.len(),
            all == entries_view(printers@),
            first_index(all, id@) == match first_index(all.skip(i as int), id@) {
                Some(k) => Some(k + i),
                None => None,
            },
        decreases printers.len() - i,
    {
        proof {
            assert(all.skip(i as int).drop_first() =~= all.skip(i + 1));
            assert(all.skip(i as int)[0] == all[i as int]);
        }
        if crate::text::str_eq(printers[i].id.as_str(), id) {
            return Some(i);
        }
        i += 1;
    }
    proof {
        assert(all.skip(i as int).len() == 0);
    }
    None
}

/// The entry of the default-printer selector to show as selected.
pub fn default_printer_selection(list: &PrinterList) -> (r: Option<usize>)
    ensures
        r == Some(selection_of(*list)),
{
    let selected = match &list.default_printer_id {
        Some(default_id) => match first_index_exec(&list.printers, default_id.as_str()) {
            Some(k) => {
                let n = list.printers.len();
                assert(k < n);
                k + 1
            },
            None => 0,
        },
        None => 0,
    };
    Some(selected)
}

pub proof fn lemma_first_index_bounds(printers: Seq<PrinterEntryView>, id: Seq<char>)
    ensures
        first_index(printers, id) matches Some(k) ==> 0 <= k < printers.len() && printers[k].id == id,
    decreases printers.len(),
{
    if printers.len() > 0 && printers[0].id != id {
        lemma_first_index_bounds(printers.drop_first(), id);
    }
}

/// Chooses the default printer from the selector: entry zero clears it,
/// entry `k` makes the `k`-th printer the default. Returns the printer to
/// make the user's default, or `None` to clear it.
pub fn select_default_printer(list: &mut PrinterList, index: usize) -> (r: Option<String>)
    ensures
        opt_view(r) == selected_printer(entries_view(old(list).printers@), index),
        opt_view(final(list).default_printer_id) == opt_view(r),
        entries_view(final(list).printers@) == entries_view(old(list).printers@),
        counts_view(final(list).active_job_counts@) == counts_view(old(list).active_job_counts@),
        opt_view(final(list).printer_context) == opt_view(old(list).printer_context),
        final(list).printer_applications@ == old(list).printer_applications@,
{
    let printer_id = if index >= 1 && index - 1 < list.printers.len() {
        Some(string_of(chars_of(list.printers[index - 1].id.as_str())))
    } else {
        None
    };
    list.default_printer_id = match &printer_id {
        Some(id) => Some(string_of(chars_of(id.as_str()))),
        None => None,
    };
    printer_id
}

fn first_default_exec(printers: &Vec<PrinterEntry>) -> (r: Option<String>)
    ensures
        opt_view(r) == first_default(entries_view(printers@)),
{
    let ghost all = entries_view(printers@);
    proof {
        assert(all.skip(0) =~= all);
    }
    let mut i: usize = 0;
    while i < printers.len()
        invariant
            i <= printers@.len(),
            all == entries_view(printers@),
            first_default(all) == first_default(all.skip(i as int)),
        decreases printers.len() - i,
    {
        proof {
            assert(all.skip(i as int).drop_first() =~= all.skip(i + 1));
            assert(all.skip(i as int)[0] == all[i as int]);
        }
        if printers[i].is_default {
            return Some(string_of(chars_of(printers[i].id.as_str())));
        }
        i += 1;
    }
    None
}

fn listed_exec(printers: &Vec<PrinterEntry>, id: &str) -> (r: bool)
    ensures
        r == lists(entries_view(printers@), id@),
{
    let mut i: usize = 0;
    while i < printers.len()
        invariant
            i <= printers@.len(),
            forall|j: int| 0 <= j < i ==> (#[trigger] entries_view(printers@)[j]).id != id@,
        decreases printers.len() - i,
    {
        if crate::text::str_eq(printers[i].id.as_str(), id) {
            proof {
                assert(entries_view(printers@)[i as int].id == id@);
            }
            return true;
        }
        i += 1;
    }
    false
}

fn retain_listed_counts(counts: &Vec<(String, usize)>, printers: &Vec<PrinterEntry>) -> (r: Vec<(String, usize)>)
    ensures
        counts_view(r@) == counts_of_listed(counts_view(counts@), entries_view(printers@)),
{
    let ghost all = counts_view(counts@);
    let ghost listed = entries_view(printers@);
    let mut kept: Vec<(String, usize)> = Vec::new();
    let mut i: usize = 0;
    proof {
        reveal(Seq::filter);
        assert(counts_view(kept@) =~= counts_of_listed(all.take(0), listed));
    }
    while i < counts.len()
        invariant
            i <= counts@.len(),
            all == counts_view(counts@),
            listed == entries_view(printers@),
            counts_view(kept@) == counts_of_listed(all.take(i as int), listed),
        decreases counts.len() - i,
    {
        proof {
            reveal(Seq::filter);
            assert(all.take(i + 1).drop_last() =~= all.take(i as int));
            assert(all[i as int] == (counts@[i as int].0@, counts@[i as int].1));
        }
        if listed_exec(printers, counts[i].0.as_str()) {
            let ghost prev = counts_view(kept@);
            kept.push((string_of(chars_of(counts[i].0.as_str())), counts[i].1));
            proof {
                assert(counts_view(kept@) =~= prev.push(all[i as int]));
            }
        }
        i += 1;
    }
    proof {
        assert(all.take(counts@.len() as int) =~= all);
    }
    kept
}

/// Applies a full read of the printers: the list becomes what was read,
/// the default is the first printer read as default, and only the job
/// counts of printers still listed are kept. The details page is sent the
/// new list and every printer's jobs are counted again.
pub fn apply_printers_load(list: &mut PrinterList, load: PrintersLoad) -> (r: ListFollowUp)
    ensures
        entries_view(final(list).printers@) == entries_view(load.printers@),
        final(list).printer_applications@ == load.printer_applications@,
        opt_view(final(list).default_printer_id) == first_default(entries_view(load.printers@)),
        counts_view(final(list).active_job_counts@) == counts_of_listed(
            counts_view(old(list).active_job_counts@),
            entries_view(load.printers@),
        ),
        opt_view(final(list).printer_context) == opt_view(old(list).printer_context),
        r == (ListFollowUp { refresh_details: true, reload_jobs: true }),
{
    list.default_printer_id = first_default_exec(&load.printers);
    list.active_job_counts = retain_listed_counts(&list.active_job_counts, &load.printers);
    list.printers = load.printers;
    list.printer_applications = load.printer_applications;
    ListFollowUp { refresh_details: true, reload_jobs: true }
}

/// After the printers could not be read, nothing is shown.
pub fn clear_printers_after_load_error(list: &mut PrinterList)
    ensures
        final(list).printers@.len() == 0,
        final(list).printer_applications@.len() == 0,
        final(list).default_printer_id is None,
        final(list).active_job_counts@.len() == 0,
        opt_view(final(list).printer_context) == opt_view(old(list).printer_context),
{
    list.printers = Vec::new();
    list.printer_applications = Vec::new();
    list.default_printer_id = None;
    list.active_job_counts = Vec::new();
}

/// Records a printer's count of active jobs; a count that could not be
/// read leaves the one shown, so that an unknown count never shows as an
/// empty queue.
pub fn apply_active_job_count(list: &mut PrinterList, printer_id: &str, result: Result<usize, String>)
    ensures
        counts_view(final(list).active_job_counts@) == match result {
            Ok(n) => without_count(counts_view(old(list).active_job_counts@), printer_id@).push((printer_id@, n)),
            Err(_) => counts_view(old(list).active_job_counts@),
        },
        entries_view(final(list).printers@) == entries_view(old(list).printers@),
        opt_view(final(list).default_printer_id) == opt_view(old(list).default_printer_id),
        opt_view(final(list).printer_context) == opt_view(old(list).printer_context),
        final(list).printer_applications@ == old(list).printer_applications@,
{
    match result {
        Ok(count) => {
            let mut counts = drop_count(&list.active_job_counts, printer_id);
            let ghost kept = counts_view(counts@);
            counts.push((string_of(chars_of(printer_id)), count));
            proof {
                assert(counts_view(counts@) =~= kept.push((printer_id@, count)));
            }
            list.active_job_counts = counts;
        },
        Err(_) => {},
    }
}

/// The number of active jobs shown beside a printer; none when its count
/// has not been read.
pub fn active_job_count(list: &PrinterList, printer_id: &str) -> (r: usize)
    ensures
        r == count_of(counts_view(list.active_job_counts@), printer_id@),
{
    let ghost all = counts_view(list.active_job_counts@);
    proof {
        assert(all.skip(0) =~= all);
    }
    let mut i: usize = 0;
    while i < list.active_job_counts.len()
        invariant
            i <= list.active_job_counts@.len(),
            all == counts_view(list.active_job_counts@),
            count_of(all, printer_id@) == count_of(all.skip(i as int), printer_id@),
        decreases list.active_job_counts.len() - i,
    {
        proof {
            assert(all.skip(i as int).drop_first() =~= all.skip(i + 1));
            assert(all.skip(i as int)[0] == all[i as int]);
        }
        if crate::text::str_eq(list.active_job_counts[i].0.as_str(), printer_id) {
            return list.active_job_counts[i].1;
        }
        i += 1;
    }
    0
}

} // verus!
