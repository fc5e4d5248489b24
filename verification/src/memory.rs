//! What each Printer Application said last time, for the times it does not
//! answer: its driver answers, the printers it has by device URI, and its
//! printer list. Each is remembered with the time it was learned, in
//! milliseconds of the service's clock, and forgotten once too old.

use vstd::prelude::*;
use crate::drivers::{PaDriverMatch, PaDriverMatchView};
use crate::ipp::{copy_opt, opt_view};
use crate::printers::{ConfiguredPrinter, ConfiguredPrinterView, printers_view};
use crate::scan::names_view;
use crate::text::{chars_of, eq_ignore_case, eq_vec, str_eq, str_eq_ignore_case, string_of};

verus! {

/// How long a driver answer is kept: briefly, to prevent discovery flicker.
pub const DRIVER_ANSWER_MEMORY_MS: u64 = 600000;

/// How long an application's printers are kept: longer, because setting a
/// device up twice is costly.
pub const CONFIGURED_DEVICE_MEMORY_MS: u64 = 3600000;

/// Whether something learned at `learned_at_ms` is still remembered at
/// `now_ms`. A clock that went back counts as no time passed.
pub open spec fn fresh(learned_at_ms: u64, now_ms: u64, memory_ms: u64) -> bool {
    (if now_ms >= learned_at_ms { now_ms - learned_at_ms } else { 0 }) < memory_ms
}

fn is_fresh(learned_at_ms: u64, now_ms: u64, memory_ms: u64) -> (r: bool)
    ensures
        r == fresh(learned_at_ms, now_ms, memory_ms),
{
    let age = if now_ms >= learned_at_ms { now_ms - learned_at_ms } else { 0 };
    age < memory_ms
}

/// Something one application said, and when.
pub struct Remembered<T> {
    pub application_id: String,
    pub value: T,
    pub learned_at_ms: u64,
}

/// One driver answer about one device.
pub struct RememberedAnswer {
    pub device_id: String,
    pub matched: PaDriverMatch,
    pub learned_at_ms: u64,
}

pub open spec fn answer_view(a: RememberedAnswer) -> (Seq<char>, PaDriverMatchView, u64) {
    (a.device_id@, a.matched@, a.learned_at_ms)
}

pub open spec fn answers_seq(answers: Seq<RememberedAnswer>) -> Seq<(Seq<char>, PaDriverMatchView, u64)> {
    answers.map_values(|a: RememberedAnswer| answer_view(a))
}

/// The last entry recorded for an application.
pub open spec fn entry_for<T>(entries: Seq<Remembered<T>>, application_id: Seq<char>) -> Option<Remembered<T>>
    decreases entries.len(),
{
    if entries.len() == 0 {
        None
    } else if entries.last().application_id@ == application_id {
        Some(entries.last())
    } else {
        entry_for(entries.drop_last(), application_id)
    }
}

/// Whether two printers of one application are the same: same name in any
/// case, or the same printer URI, or the same device URI.
pub open spec fn same_application_printer_spec(left: ConfiguredPrinterView, right: ConfiguredPrinterView) -> bool {
    ||| eq_ignore_case(left.name, right.name)
    ||| (left.printer_uri is Some && left.printer_uri == right.printer_uri)
    ||| (left.device_uri is Some && left.device_uri == right.device_uri)
}

/// Whether two printers of one application are the same.
pub fn same_application_printer(left: &ConfiguredPrinter, right: &ConfiguredPrinter) -> (r: bool)
    ensures
        r == same_application_printer_spec(left@, right@),
{
    let same_printer_uri = match (&left.printer_uri, &right.printer_uri) {
        (Some(a), Some(b)) => str_eq(a.as_str(), b.as_str()),
        _ => false,
    };
    let same_device_uri = match (&left.device_uri, &right.device_uri) {
        (Some(a), Some(b)) => str_eq(a.as_str(), b.as_str()),
        _ => false,
    };
    str_eq_ignore_case(left.name.as_str(), right.name.as_str()) || same_printer_uri || same_device_uri
}

/// The printers that stay cached once `removed` is gone.
pub open spec fn kept_printers(printers: Seq<ConfiguredPrinterView>, removed: ConfiguredPrinterView) -> Seq<ConfiguredPrinterView> {
    printers.filter(|p: ConfiguredPrinterView| !same_application_printer_spec(p, removed))
}

/// The device-URI entries that stay cached once `removed` is gone: those
/// naming neither its device URI nor its name.
pub open spec fn kept_devices(pairs: Seq<(Seq<char>, Seq<char>)>, removed: ConfiguredPrinterView) -> Seq<(Seq<char>, Seq<char>)> {
    pairs.filter(|p: (Seq<char>, Seq<char>)| removed.device_uri != Some(p.0) && !eq_ignore_case(p.1, removed.name))
}

/// The answers remembered at `now_ms`, as device ID and answer.
pub open spec fn fresh_answers(answers: Seq<(Seq<char>, PaDriverMatchView, u64)>, now_ms: u64) -> Seq<(Seq<char>, PaDriverMatchView)>
    decreases answers.len(),
{
    if answers.len() == 0 {
        Seq::empty()
    } else {
        let before = fresh_answers(answers.drop_last(), now_ms);
        if fresh(answers.last().2, now_ms, DRIVER_ANSWER_MEMORY_MS) {
            before.push((answers.last().0, answers.last().1))
        } else {
            before
        }
    }
}

/// Records one answer, replacing an earlier one about the same device.
pub open spec fn put_answer(
    answers: Seq<(Seq<char>, PaDriverMatchView, u64)>,
    answer: (Seq<char>, PaDriverMatchView, u64),
) -> Seq<(Seq<char>, PaDriverMatchView, u64)> {
    answers.filter(other_device(answer.0)).push(answer)
}

/// Whether an answer is about another device than `device_id`.
pub open spec fn other_device(device_id: Seq<char>) -> spec_fn((Seq<char>, PaDriverMatchView, u64)) -> bool {
    |a: (Seq<char>, PaDriverMatchView, u64)| a.0 != device_id
}

/// Records answers in order, each learned at `now_ms`.
pub open spec fn put_answers(
    answers: Seq<(Seq<char>, PaDriverMatchView, u64)>,
    incoming: Seq<(Seq<char>, PaDriverMatchView)>,
    now_ms: u64,
) -> Seq<(Seq<char>, PaDriverMatchView, u64)>
    decreases incoming.len(),
{
    if incoming.len() == 0 {
        answers
    } else {
        put_answer(put_answers(answers, incoming.drop_last(), now_ms), (incoming.last().0, incoming.last().1, now_ms))
    }
}

pub open spec fn incoming_view(pairs: Seq<(String, PaDriverMatch)>) -> Seq<(Seq<char>, PaDriverMatchView)> {
    pairs.map_values(|p: (String, PaDriverMatch)| (p.0@, p.1@))
}

fn position_of<T>(entries: &Vec<Remembered<T>>, application_id: &str) -> (r: Option<usize>)
    ensures
        match r {
            Some(k) => k < entries@.len() && entry_for(entries@, application_id@) == Some(entries@[k as int])
                && entries@[k as int].application_id@ == application_id@,
            None => entry_for(entries@, application_id@) is None,
        },
{
    let wanted = chars_of(application_id);
    let mut k: usize = entries.len();
    proof {
        assert(entries@.take(k as int) =~= entries@);
    }
    while k > 0
        invariant
            k <= entries@.len(),
            wanted@ == application_id@,
            entry_for(entries@, application_id@) == entry_for(entries@.take(k as int), application_id@),
        decreases k,
    {
        proof {
            assert(entries@.take(k as int).drop_last() =~= entries@.take(k - 1));
        }
        if eq_vec(&chars_of(entries[k - 1].application_id.as_str()), &wanted) {
            return Some(k - 1);
        }
        k -= 1;
    }
    None
}

/// Replacing an entry keeps every other application's last entry.
proof fn lemma_entry_update<T>(entries: Seq<Remembered<T>>, k: int, e: Remembered<T>, id: Seq<char>)
    requires
        0 <= k < entries.len(),
        e.application_id@ == entries[k].application_id@,
        forall|j: int| 0 <= j < entries.len() && j != k ==> (#[trigger] entries[j]).application_id@ != entries[k].application_id@,
    ensures
        entry_for(entries.update(k, e), id) == if id == e.application_id@ {
            Some(e)
        } else {
            entry_for(entries, id)
        },
    decreases entries.len(),
{
    let n = entries.len() - 1;
    if k == n {
        assert(entries.update(k, e).drop_last() =~= entries.drop_last());
    } else {
        assert(entries.update(k, e).drop_last() =~= entries.drop_last().update(k, e));
        assert(entries.update(k, e).last() == entries.last());
        assert(entries.last().application_id@ != entries[k].application_id@);
        assert(entries.drop_last()[k] == entries[k]);
        lemma_entry_update(entries.drop_last(), k, e, id);
    }
}

/// Dropping an application's last entry, when it is its only one.
proof fn lemma_entry_remove<T>(entries: Seq<Remembered<T>>, k: int, id: Seq<char>)
    requires
        0 <= k < entries.len(),
        forall|j: int| 0 <= j < entries.len() && j != k ==> (#[trigger] entries[j]).application_id@ != entries[k].application_id@,
    ensures
        entry_for(entries.remove(k), id) == if id == entries[k].application_id@ {
            None
        } else {
            entry_for(entries, id)
        },
    decreases entries.len(),
{
    let n = entries.len() - 1;
    if entries.len() == 1 {
        assert(entries.remove(k).len() == 0);
    } else if k == n {
        assert(entries.remove(k) =~= entries.drop_last());
        if id == entries[k].application_id@ {
            lemma_entry_absent(entries.drop_last(), id);
        }
    } else {
        assert(entries.remove(k).drop_last() =~= entries.drop_last().remove(k));
        assert(entries.remove(k).last() == entries.last());
        lemma_entry_remove(entries.drop_last(), k, id);
    }
}

proof fn lemma_entry_absent<T>(entries: Seq<Remembered<T>>, id: Seq<char>)
    requires
        forall|j: int| 0 <= j < entries.len() ==> (#[trigger] entries[j]).application_id@ != id,
    ensures
        entry_for(entries, id) is None,
    decreases entries.len(),
{
    if entries.len() > 0 {
        lemma_entry_absent(entries.drop_last(), id);
    }
}

proof fn lemma_entry_push<T>(entries: Seq<Remembered<T>>, e: Remembered<T>, id: Seq<char>)
    ensures
        entry_for(entries.push(e), id) == if id == e.application_id@ {
            Some(e)
        } else {
            entry_for(entries, id)
        },
{
    assert(entries.push(e).drop_last() =~= entries);
}

/// At most one entry per application.
pub open spec fn one_entry_each<T>(entries: Seq<Remembered<T>>) -> bool {
    forall|a: int, b: int| 0 <= a < entries.len() && 0 <= b < entries.len() && a != b
        ==> (#[trigger] entries[a]).application_id@ != (#[trigger] entries[b]).application_id@
}

proof fn lemma_one_entry<T>(entries: Seq<Remembered<T>>, k: int)
    requires
        one_entry_each(entries),
        0 <= k < entries.len(),
    ensures
        entry_for(entries, entries[k].application_id@) == Some(entries[k]),
        forall|j: int| 0 <= j < entries.len() && j != k ==> (#[trigger] entries[j]).application_id@ != entries[k].application_id@,
    decreases entries.len(),
{
    if k < entries.len() - 1 {
        assert(one_entry_each(entries.drop_last()));
        lemma_one_entry(entries.drop_last(), k);
    }
}

proof fn lemma_one_entry_update<T>(entries: Seq<Remembered<T>>, k: int, e: Remembered<T>)
    requires
        one_entry_each(entries),
        0 <= k < entries.len(),
        e.application_id@ == entries[k].application_id@,
    ensures
        one_entry_each(entries.update(k, e)),
{
    let after = entries.update(k, e);
    assert forall|a: int, b: int| 0 <= a < after.len() && 0 <= b < after.len() && a != b
        implies (#[trigger] after[a]).application_id@ != (#[trigger] after[b]).application_id@ by {
        assert(entries[a].application_id@ != entries[b].application_id@);
    }
}

proof fn lemma_one_entry_push<T>(entries: Seq<Remembered<T>>, e: Remembered<T>)
    requires
        one_entry_each(entries),
        forall|j: int| 0 <= j < entries.len() ==> (#[trigger] entries[j]).application_id@ != e.application_id@,
    ensures
        one_entry_each(entries.push(e)),
{
    let after = entries.push(e);
    assert forall|a: int, b: int| 0 <= a < after.len() && 0 <= b < after.len() && a != b
        implies (#[trigger] after[a]).application_id@ != (#[trigger] after[b]).application_id@ by {
        if a < entries.len() && b < entries.len() {
            assert(entries[a].application_id@ != entries[b].application_id@);
        } else if a < entries.len() {
            assert(entries[a].application_id@ != e.application_id@);
        } else {
            assert(entries[b].application_id@ != e.application_id@);
        }
    }
}

/// Drops what one application said, keeping every other application's.
fn forget_entry<T>(entries: &mut Vec<Remembered<T>>, application_id: &str)
    requires
        one_entry_each(old(entries)@),
    ensures
        one_entry_each(final(entries)@),
        forall|id: Seq<char>| #[trigger] entry_for(final(entries)@, id) == if id == application_id@ {
            None
        } else {
            entry_for(old(entries)@, id)
        },
{
    let ghost before = entries@;
    match position_of(entries, application_id) {
        Some(k) => {
            proof {
                lemma_one_entry(before, k as int);
            }
            entries.remove(k);
            proof {
                let after = entries@;
                assert(after =~= before.remove(k as int));
                assert forall|id: Seq<char>| #[trigger] entry_for(after, id) == if id == application_id@ {
                    None
                } else {
                    entry_for(before, id)
                } by {
                    lemma_entry_remove(before, k as int, id);
                }
                assert forall|a: int, b: int| 0 <= a < after.len() && 0 <= b < after.len() && a != b
                    implies (#[trigger] after[a]).application_id@ != (#[trigger] after[b]).application_id@ by {
                    let a0 = if a < k { a } else { a + 1 };
                    let b0 = if b < k { b } else { b + 1 };
                    assert(after[a] == before[a0] && after[b] == before[b0]);
                    assert(before[a0].application_id@ != before[b0].application_id@);
                }
            }
        },
        None => {},
    }
}

/// What each Printer Application said last time.
pub struct Memory {
    driver_answers: Vec<Remembered<Vec<RememberedAnswer>>>,
    configured_devices: Vec<Remembered<Vec<(String, String)>>>,
    application_printers: Vec<Remembered<Vec<ConfiguredPrinter>>>,
}

impl Memory {
    /// The device-URI entries last recorded for an application, and when.
    pub closed spec fn configured_of(&self, application_id: Seq<char>) -> Option<(Seq<(Seq<char>, Seq<char>)>, u64)> {
        match entry_for(self.configured_devices@, application_id) {
            Some(e) => Some((names_view(e.value@), e.learned_at_ms)),
            None => None,
        }
    }

    /// The printer list last recorded for an application, and when.
    pub closed spec fn printers_of(&self, application_id: Seq<char>) -> Option<(Seq<ConfiguredPrinterView>, u64)> {
        match entry_for(self.application_printers@, application_id) {
            Some(e) => Some((printers_view(e.value@), e.learned_at_ms)),
            None => None,
        }
    }

    /// The driver answers recorded for an application, each with when.
    pub closed spec fn answers_of(&self, application_id: Seq<char>) -> Seq<(Seq<char>, PaDriverMatchView, u64)> {
        match entry_for(self.driver_answers@, application_id) {
            Some(e) => answers_seq(e.value@),
            None => Seq::empty(),
        }
    }

    pub closed spec fn wf(&self) -> bool {
        &&& one_entry_each(self.driver_answers@)
        &&& one_entry_each(self.configured_devices@)
        &&& one_entry_each(self.application_printers@)
    }

    /// Nothing remembered.
    pub fn new() -> (r: Self)
        ensures
            r.wf(),
            forall|id: Seq<char>| r.configured_of(id) is None && r.printers_of(id) is None && r.answers_of(id).len() == 0,
    {
        Memory { driver_answers: Vec::new(), configured_devices: Vec::new(), application_printers: Vec::new() }
    }

    /// The printers an application last said it has, by device URI, while
    /// that is recent enough to trust; nothing otherwise.
    pub fn remembered_configured_devices(&self, application_id: &str, now_ms: u64) -> (r: Vec<(String, String)>)
        ensures
            names_view(r@) == match self.configured_of(application_id@) {
                Some((pairs, at)) => if fresh(at, now_ms, CONFIGURED_DEVICE_MEMORY_MS) {
                    pairs
                } else {
                    Seq::empty()
                },
                None => Seq::empty(),
            },
    {
        match position_of(&self.configured_devices, application_id) {
            Some(k) => {
                if is_fresh(self.configured_devices[k].learned_at_ms, now_ms, CONFIGURED_DEVICE_MEMORY_MS) {
                    copy_pairs(&self.configured_devices[k].value)
                } else {
                    let none: Vec<(String, String)> = Vec::new();
                    proof {
                        assert(names_view(none@) =~= Seq::<(Seq<char>, Seq<char>)>::empty());
                    }
                    none
                }
            },
            None => {
                let none: Vec<(String, String)> = Vec::new();
                proof {
                    assert(names_view(none@) =~= Seq::<(Seq<char>, Seq<char>)>::empty());
                }
                none
            },
        }
    }

    /// Records the printers an application says it has, by device URI.
    pub fn remember_configured_devices(&mut self, application_id: &str, by_device_uri: Vec<(String, String)>, now_ms: u64)
        requires
            old(self).wf(),
        ensures
            final(self).wf(),
            final(self).configured_of(application_id@) == Some((names_view(by_device_uri@), now_ms)),
            forall|id: Seq<char>| id != application_id@ ==> #[trigger] final(self).configured_of(id) == old(self).configured_of(id),
            forall|id: Seq<char>| #[trigger] final(self).printers_of(id) == old(self).printers_of(id)
                && final(self).answers_of(id) == old(self).answers_of(id),
    {
        let e = Remembered { application_id: string_of(chars_of(application_id)), value: by_device_uri, learned_at_ms: now_ms };
        let ghost ev = e;
        let ghost before = self.configured_devices@;
        match position_of(&self.configured_devices, application_id) {
            Some(k) => {
                proof {
                    lemma_one_entry(before, k as int);
                }
                self.configured_devices.set(k, e);
                proof {
                    lemma_one_entry_update(before, k as int, ev);
                    assert forall|id: Seq<char>| true implies entry_for(self.configured_devices@, id) == if id == application_id@ {
                        Some(ev)
                    } else {
                        entry_for(before, id)
                    } by {
                        lemma_entry_update(before, k as int, ev, id);
                    }
                }
            },
            None => {
                proof {
                    assert forall|j: int| 0 <= j < before.len() implies (#[trigger] before[j]).application_id@ != application_id@ by {
                        lemma_one_entry(before, j);
                    }
                }
                self.configured_devices.push(e);
                proof {
                    lemma_one_entry_push(before, ev);
                    assert forall|id: Seq<char>| true implies entry_for(self.configured_devices@, id) == if id == application_id@ {
                        Some(ev)
                    } else {
                        entry_for(before, id)
                    } by {
                        lemma_entry_push(before, ev, id);
                    }
                }
            },
        }
    }

    /// Forgets what an application said about its drivers and its devices,
    /// as when it goes away or restarts on another endpoint; its printer
    /// list, which routes destinations to it, stays.
    pub fn forget_application(&mut self, application_id: &str)
        requires
            old(self).wf(),
        ensures
            final(self).wf(),
            final(self).configured_of(application_id@) is None,
            final(self).answers_of(application_id@).len() == 0,
            forall|id: Seq<char>| id != application_id@ ==> final(self).configured_of(id) == old(self).configured_of(id)
                && final(self).answers_of(id) == old(self).answers_of(id),
            forall|id: Seq<char>| final(self).printers_of(id) == old(self).printers_of(id),
    {
        forget_entry(&mut self.driver_answers, application_id);
        forget_entry(&mut self.configured_devices, application_id);
        proof {
            assert(entry_for(self.driver_answers@, application_id@) is None);
            assert(entry_for(self.configured_devices@, application_id@) is None);
            assert forall|id: Seq<char>| id != application_id@ implies self.configured_of(id) == old(self).configured_of(id)
                && self.answers_of(id) == old(self).answers_of(id) by {
                assert(entry_for(self.driver_answers@, id) == entry_for(old(self).driver_answers@, id));
                assert(entry_for(self.configured_devices@, id) == entry_for(old(self).configured_devices@, id));
            }
        }
    }

    /// Forgets a printer that was deleted from an application: drops it
    /// from the application's cached printer list and its device-URI
    /// entries (those naming its device URI or, in any case, its name), and
    /// forgets a list or entry set that ends up empty.
    pub fn remove_cached_application_printer(&mut self, application_id: &str, printer: &ConfiguredPrinter)
        requires
            old(self).wf(),
        ensures
            final(self).wf(),
            final(self).printers_of(application_id@) == match old(self).printers_of(application_id@) {
                Some((printers, at)) => if kept_printers(printers, printer@).len() == 0 {
                    None
                } else {
                    Some((kept_printers(printers, printer@), at))
                },
                None => None,
            },
            final(self).configured_of(application_id@) == match old(self).configured_of(application_id@) {
                Some((pairs, at)) => if kept_devices(pairs, printer@).len() == 0 {
                    None
                } else {
                    Some((kept_devices(pairs, printer@), at))
                },
                None => None,
            },
            forall|id: Seq<char>| id != application_id@ ==> #[trigger] final(self).printers_of(id) == old(self).printers_of(id)
                && final(self).configured_of(id) == old(self).configured_of(id),
            forall|id: Seq<char>| #[trigger] final(self).answers_of(id) == old(self).answers_of(id),
    {
        let ghost before = self.application_printers@;
        match position_of(&self.application_printers, application_id) {
            Some(k) => {
                proof {
                    lemma_one_entry(before, k as int);
                }
                let kept = filter_printers(&self.application_printers[k].value, printer);
                if kept.len() == 0 {
                    self.application_printers.remove(k);
                    proof {
                        assert forall|id: Seq<char>| true implies entry_for(self.application_printers@, id) == if id
                            == application_id@ {
                            None
                        } else {
                            entry_for(before, id)
                        } by {
                            lemma_entry_remove(before, k as int, id);
                        }
                        assert forall|a: int, b: int| 0 <= a < self.application_printers@.len() && 0 <= b
                            < self.application_printers@.len() && a != b implies (#[trigger] self.application_printers@[a]).application_id@
                            != (#[trigger] self.application_printers@[b]).application_id@ by {
                            let a0 = if a < k { a } else { a + 1 };
                            let b0 = if b < k { b } else { b + 1 };
                            assert(self.application_printers@[a] == before[a0] && self.application_printers@[b] == before[b0]);
                        }
                    }
                } else {
                    let e = Remembered {
                        application_id: string_of(chars_of(application_id)),
                        value: kept,
                        learned_at_ms: self.application_printers[k].learned_at_ms,
                    };
                    let ghost ev = e;
                    self.application_printers.set(k, e);
                    proof {
                        lemma_one_entry_update(before, k as int, ev);
                        assert forall|id: Seq<char>| true implies entry_for(self.application_printers@, id) == if id
                            == application_id@ {
                            Some(ev)
                        } else {
                            entry_for(before, id)
                        } by {
                            lemma_entry_update(before, k as int, ev, id);
                        }
                    }
                }
            },
            None => {},
        }
        let ghost devices = self.configured_devices@;
        match position_of(&self.configured_devices, application_id) {
            Some(k) => {
                proof {
                    lemma_one_entry(devices, k as int);
                }
                let kept = filter_devices(&self.configured_devices[k].value, printer);
                if kept.len() == 0 {
                    self.configured_devices.remove(k);
                    proof {
                        assert forall|id: Seq<char>| true implies entry_for(self.configured_devices@, id) == if id
                            == application_id@ {
                            None
                        } else {
                            entry_for(devices, id)
                        } by {
                            lemma_entry_remove(devices, k as int, id);
                        }
                        assert forall|a: int, b: int| 0 <= a < self.configured_devices@.len() && 0 <= b
                            < self.configured_devices@.len() && a != b implies (#[trigger] self.configured_devices@[a]).application_id@
                            != (#[trigger] self.configured_devices@[b]).application_id@ by {
                            let a0 = if a < k { a } else { a + 1 };
                            let b0 = if b < k { b } else { b + 1 };
                            assert(self.configured_devices@[a] == devices[a0] && self.configured_devices@[b] == devices[b0]);
                        }
                    }
                } else {
                    let e = Remembered {
                        application_id: string_of(chars_of(application_id)),
                        value: kept,
                        learned_at_ms: self.configured_devices[k].learned_at_ms,
                    };
                    let ghost ev = e;
                    self.configured_devices.set(k, e);
                    proof {
                        lemma_one_entry_update(devices, k as int, ev);
                        assert forall|id: Seq<char>| true implies entry_for(self.configured_devices@, id) == if id
                            == application_id@ {
                            Some(ev)
                        } else {
                            entry_for(devices, id)
                        } by {
                            lemma_entry_update(devices, k as int, ev, id);
                        }
                    }
                }
            },
            None => {},
        }
    }

    /// What an application recently answered about each device's drivers.
    pub fn remembered_driver_answers(&self, application_id: &str, now_ms: u64) -> (r: Vec<(String, PaDriverMatch)>)
        ensures
            incoming_view(r@) == fresh_answers(self.answers_of(application_id@), now_ms),
    {
        let mut out: Vec<(String, PaDriverMatch)> = Vec::new();
        match position_of(&self.driver_answers, application_id) {
            Some(k) => {
                let list = &self.driver_answers[k].value;
                let ghost all = answers_seq(list@);
                let mut i: usize = 0;
                proof {
                    assert(incoming_view(out@) =~= fresh_answers(all.take(0), now_ms));
                }
                while i < list.len()
                    invariant
                        i <= list@.len(),
                        all == answers_seq(list@),
                        incoming_view(out@) == fresh_answers(all.take(i as int), now_ms),
                    decreases list.len() - i,
                {
                    proof {
                        assert(all.take(i + 1).drop_last() =~= all.take(i as int));
                    }
                    if is_fresh(list[i].learned_at_ms, now_ms, DRIVER_ANSWER_MEMORY_MS) {
                        let ghost prev = out@;
                        out.push((string_of(chars_of(list[i].device_id.as_str())), list[i].matched.duplicate()));
                        proof {
                            assert(incoming_view(out@) =~= incoming_view(prev).push((all[i as int].0, all[i as int].1)));
                        }
                    }
                    i += 1;
                }
                proof {
                    assert(all.take(list@.len() as int) =~= all);
                }
            },
            None => {
                proof {
                    assert(incoming_view(out@) =~= Seq::<(Seq<char>, PaDriverMatchView)>::empty());
                }
            },
        }
        out
    }

    /// Records what an application answered about devices' drivers, each
    /// learned now, replacing earlier answers about the same devices.
    pub fn remember_driver_answers(&mut self, application_id: &str, answers: Vec<(String, PaDriverMatch)>, now_ms: u64)
        requires
            old(self).wf(),
        ensures
            final(self).wf(),
            answers@.len() == 0 ==> final(self).answers_of(application_id@) == old(self).answers_of(application_id@),
            answers@.len() > 0 ==> final(self).answers_of(application_id@) == put_answers(
                old(self).answers_of(application_id@),
                incoming_view(answers@),
                now_ms,
            ),
            forall|id: Seq<char>| id != application_id@ ==> #[trigger] final(self).answers_of(id) == old(self).answers_of(id),
            forall|id: Seq<char>| #[trigger] final(self).printers_of(id) == old(self).printers_of(id)
                && final(self).configured_of(id) == old(self).configured_of(id),
    {
        if answers.len() == 0 {
            return;
        }
        let ghost before = self.driver_answers@;
        let ghost old_answers = match entry_for(before, application_id@) {
            Some(e) => answers_seq(e.value@),
            None => Seq::empty(),
        };
        let pos = position_of(&self.driver_answers, application_id);
        let mut list: Vec<RememberedAnswer> = Vec::new();
        match pos {
            Some(k) => {
                std::mem::swap(&mut list, &mut self.driver_answers[k].value);
            },
            None => {},
        }
        let ghost incoming = incoming_view(answers@);
        proof {
            assert(answers_seq(list@) == put_answers(old_answers, incoming.take(0), now_ms)) by {
                if pos is None {
                    assert(answers_seq(list@) =~= Seq::<(Seq<char>, PaDriverMatchView, u64)>::empty());
                }
            }
        }
        let mut i: usize = 0;
        while i < answers.len()
            invariant
                i <= answers@.len(),
                incoming == incoming_view(answers@),
                answers_seq(list@) == put_answers(old_answers, incoming.take(i as int), now_ms),
            decreases answers.len() - i,
        {
            proof {
                assert(incoming.take(i + 1).drop_last() =~= incoming.take(i as int));
            }
            put_answer_exec(
                &mut list,
                RememberedAnswer {
                    device_id: string_of(chars_of(answers[i].0.as_str())),
                    matched: answers[i].1.duplicate(),
                    learned_at_ms: now_ms,
                },
            );
            i += 1;
        }
        proof {
            assert(incoming.take(answers@.len() as int) =~= incoming);
        }
        let ghost now = self.driver_answers@;
        match pos {
            Some(k) => {
                let e = Remembered {
                    application_id: string_of(chars_of(application_id)),
                    value: list,
                    learned_at_ms: self.driver_answers[k].learned_at_ms,
                };
                let ghost ev = e;
                self.driver_answers.set(k, e);
                proof {
                    lemma_one_entry(before, k as int);
                    assert(self.driver_answers@ == before.update(k as int, ev));
                    lemma_one_entry_update(before, k as int, ev);
                    assert forall|id: Seq<char>| true implies entry_for(self.driver_answers@, id) == if id == application_id@ {
                        Some(ev)
                    } else {
                        entry_for(before, id)
                    } by {
                        lemma_entry_update(before, k as int, ev, id);
                    }
                }
            },
            None => {
                let e = Remembered { application_id: string_of(chars_of(application_id)), value: list, learned_at_ms: now_ms };
                let ghost ev = e;
                proof {
                    assert forall|j: int| 0 <= j < before.len() implies (#[trigger] before[j]).application_id@ != application_id@ by {
                        lemma_one_entry(before, j);
                    }
                }
                self.driver_answers.push(e);
                proof {
                    lemma_one_entry_push(before, ev);
                    assert forall|id: Seq<char>| true implies entry_for(self.driver_answers@, id) == if id == application_id@ {
                        Some(ev)
                    } else {
                        entry_for(before, id)
                    } by {
                        lemma_entry_push(before, ev, id);
                    }
                }
            },
        }
    }

    /// The printer list an application last gave, while recent enough to
    /// trust; nothing otherwise.
    pub fn remembered_application_printers(&self, application_id: &str, now_ms: u64) -> (r: Vec<ConfiguredPrinter>)
        ensures
            printers_view(r@) == match self.printers_of(application_id@) {
                Some((printers, at)) => if fresh(at, now_ms, CONFIGURED_DEVICE_MEMORY_MS) {
                    printers
                } else {
                    Seq::empty()
                },
                None => Seq::empty(),
            },
    {
        match position_of(&self.application_printers, application_id) {
            Some(k) => {
                if is_fresh(self.application_printers[k].learned_at_ms, now_ms, CONFIGURED_DEVICE_MEMORY_MS) {
                    copy_printers(&self.application_printers[k].value)
                } else {
                    let none: Vec<ConfiguredPrinter> = Vec::new();
                    proof {
                        assert(printers_view(none@) =~= Seq::<ConfiguredPrinterView>::empty());
                    }
                    none
                }
            },
            None => {
                let none: Vec<ConfiguredPrinter> = Vec::new();
                proof {
                    assert(printers_view(none@) =~= Seq::<ConfiguredPrinterView>::empty());
                }
                none
            },
        }
    }

    /// Records the printers an application listed.
    pub fn remember_application_printers(&mut self, application_id: &str, printers: Vec<ConfiguredPrinter>, now_ms: u64)
        requires
            old(self).wf(),
        ensures
            final(self).wf(),
            final(self).printers_of(application_id@) == Some((printers_view(printers@), now_ms)),
            forall|id: Seq<char>| id != application_id@ ==> #[trigger] final(self).printers_of(id) == old(self).printers_of(id),
            forall|id: Seq<char>| #[trigger] final(self).configured_of(id) == old(self).configured_of(id)
                && final(self).answers_of(id) == old(self).answers_of(id),
    {
        let e = Remembered { application_id: string_of(chars_of(application_id)), value: printers, learned_at_ms: now_ms };
        let ghost ev = e;
        let ghost before = self.application_printers@;
        match position_of(&self.application_printers, application_id) {
            Some(k) => {
                proof {
                    lemma_one_entry(before, k as int);
                }
                self.application_printers.set(k, e);
                proof {
                    lemma_one_entry_update(before, k as int, ev);
                    assert forall|id: Seq<char>| true implies entry_for(self.application_printers@, id) == if id == application_id@ {
                        Some(ev)
                    } else {
                        entry_for(before, id)
                    } by {
                        lemma_entry_update(before, k as int, ev, id);
                    }
                }
            },
            None => {
                proof {
                    assert forall|j: int| 0 <= j < before.len() implies (#[trigger] before[j]).application_id@ != application_id@ by {
                        lemma_one_entry(before, j);
                    }
                }
                self.application_printers.push(e);
                proof {
                    lemma_one_entry_push(before, ev);
                    assert forall|id: Seq<char>| true implies entry_for(self.application_printers@, id) == if id == application_id@ {
                        Some(ev)
                    } else {
                        entry_for(before, id)
                    } by {
                        lemma_entry_push(before, ev, id);
                    }
                }
            },
        }
    }

}

fn copy_pairs(pairs: &Vec<(String, String)>) -> (r: Vec<(String, String)>)
    ensures
        names_view(r@) == names_view(pairs@),
{
    let mut out: Vec<(String, String)> = Vec::new();
    let mut i: usize = 0;
    while i < pairs.len()
        invariant
            i <= pairs@.len(),
            out@.len() == i,
            forall|k: int| 0 <= k < i ==> (#[trigger] out@[k]).0@ == pairs@[k].0@ && out@[k].1@ == pairs@[k].1@,
        decreases pairs.len() - i,
    {
        out.push((string_of(chars_of(pairs[i].0.as_str())), string_of(chars_of(pairs[i].1.as_str()))));
        i += 1;
    }
    proof {
        assert(names_view(out@) =~= names_view(pairs@));
    }
    out
}

fn copy_printers(printers: &Vec<ConfiguredPrinter>) -> (r: Vec<ConfiguredPrinter>)
    ensures
        printers_view(r@) == printers_view(printers@),
{
    let mut out: Vec<ConfiguredPrinter> = Vec::new();
    let mut i: usize = 0;
    while i < printers.len()
        invariant
            i <= printers@.len(),
            out@.len() == i,
            forall|k: int| 0 <= k < i ==> (#[trigger] out@[k])@ == printers@[k]@,
        decreases printers.len() - i,
    {
        out.push(printers[i].duplicate());
        i += 1;
    }
    proof {
        assert(printers_view(out@) =~= printers_view(printers@));
    }
    out
}

fn filter_printers(printers: &Vec<ConfiguredPrinter>, removed: &ConfiguredPrinter) -> (r: Vec<ConfiguredPrinter>)
    ensures
        printers_view(r@) == kept_printers(printers_view(printers@), removed@),
{
    let ghost all = printers_view(printers@);
    let mut out: Vec<ConfiguredPrinter> = Vec::new();
    let mut i: usize = 0;
    proof {
        reveal(Seq::filter);
        assert(printers_view(out@) =~= kept_printers(all.take(0), removed@));
    }
    while i < printers.len()
        invariant
            i <= printers@.len(),
            all == printers_view(printers@),
            printers_view(out@) == kept_printers(all.take(i as int), removed@),
        decreases printers.len() - i,
    {
        proof {
            reveal(Seq::filter);
            assert(all.take(i + 1).drop_last() =~= all.take(i as int));
        }
        if !same_application_printer(&printers[i], removed) {
            let ghost prev = out@;
            out.push(printers[i].duplicate());
            proof {
                assert(printers_view(out@) =~= printers_view(prev).push(all[i as int]));
            }
        }
        i += 1;
    }
    proof {
        assert(all.take(printers@.len() as int) =~= all);
    }
    out
}

fn filter_devices(pairs: &Vec<(String, String)>, removed: &ConfiguredPrinter) -> (r: Vec<(String, String)>)
    ensures
        names_view(r@) == kept_devices(names_view(pairs@), removed@),
{
    let ghost all = names_view(pairs@);
    let mut out: Vec<(String, String)> = Vec::new();
    let mut i: usize = 0;
    proof {
        reveal(Seq::filter);
        assert(names_view(out@) =~= kept_devices(all.take(0), removed@));
    }
    while i < pairs.len()
        invariant
            i <= pairs@.len(),
            all == names_view(pairs@),
            names_view(out@) == kept_devices(all.take(i as int), removed@),
        decreases pairs.len() - i,
    {
        proof {
            reveal(Seq::filter);
            assert(all.take(i + 1).drop_last() =~= all.take(i as int));
        }
        let names_its_uri = match &removed.device_uri {
            Some(u) => str_eq(u.as_str(), pairs[i].0.as_str()),
            None => false,
        };
        if !names_its_uri && !str_eq_ignore_case(pairs[i].1.as_str(), removed.name.as_str()) {
            let ghost prev = out@;
            out.push((string_of(chars_of(pairs[i].0.as_str())), string_of(chars_of(pairs[i].1.as_str()))));
            proof {
                assert(names_view(out@) =~= names_view(prev).push(all[i as int]));
            }
        }
        i += 1;
    }
    proof {
        assert(all.take(pairs@.len() as int) =~= all);
    }
    out
}

fn put_answer_exec(list: &mut Vec<RememberedAnswer>, answer: RememberedAnswer)
    ensures
        answers_seq(final(list)@) == put_answer(answers_seq(old(list)@), answer_view(answer)),
{
    let ghost all = answers_seq(list@);
    let ghost av = answer_view(answer);
    let mut kept: Vec<RememberedAnswer> = Vec::new();
    let mut rest: Vec<RememberedAnswer> = Vec::new();
    std::mem::swap(&mut rest, list);
    let ghost f = other_device(av.0);
    let mut i: usize = 0;
    proof {
        reveal(Seq::filter);
        assert(answers_seq(kept@) =~= all.take(0).filter(f));
    }
    let id = chars_of(answer.device_id.as_str());
    while i < rest.len()
        invariant
            i <= rest@.len(),
            all == answers_seq(rest@),
            id@ == av.0,
            f == other_device(av.0),
            answers_seq(kept@) == all.take(i as int).filter(f),
        decreases rest.len() - i,
    {
        proof {
            reveal(Seq::filter);
            assert(all.take(i + 1).drop_last() =~= all.take(i as int));
        }
        proof {
            assert(all[i as int].0 == rest@[i as int].device_id@);
        }
        if !eq_vec(&chars_of(rest[i].device_id.as_str()), &id) {
            proof {
                assert(f(all[i as int]));
            }
            let ghost prev = kept@;
            kept.push(RememberedAnswer {
                device_id: string_of(chars_of(rest[i].device_id.as_str())),
                matched: rest[i].matched.duplicate(),
                learned_at_ms: rest[i].learned_at_ms,
            });
            proof {
                assert(answers_seq(kept@) =~= answers_seq(prev).push(all[i as int]));
            }
        } else {
            proof {
                assert(!f(all[i as int]));
            }
        }
        i += 1;
    }
    proof {
        assert(all.take(rest@.len() as int) =~= all);
    }
    let ghost prev = kept@;
    kept.push(answer);
    proof {
        assert(answers_seq(kept@) =~= answers_seq(prev).push(av));
    }
    *list = kept;
}

} // verus!
