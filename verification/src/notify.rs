//! Hearing about job and printer changes: reading IPP event notifications,
//! what each means for the printers already known, and which job endings
//! are worth a desktop notification.

use vstd::prelude::*;
use std::collections::HashMap;
use crate::ipp::{IppAttribute, IppAttributeView, IppGroup, attributes_view, opt_view};
use crate::queue::JobState;
use crate::text::{
    chars_of, ends_with, ends_with_exec, eq_vec, push_str, slice_of, split_on, split_on_exec,
    starts_with, starts_with_exec, string_of, trim, trim_vec,
};

verus! {

broadcast use vstd::std_specs::hash::group_hash_axioms;

/// What an event means for the printers already known.
#[derive(Clone, Debug, PartialEq, Eq)]
pub enum Event {
    /// The jobs of this printer changed.
    JobsChanged(String),
    /// This printer changed and is worth re-reading.
    PrinterChanged(String),
    /// This printer is gone.
    PrinterRemoved(String),
}

/// One event notification, as much of it as is read.
#[derive(Clone, Debug)]
pub struct Notification {
    pub event: String,
    pub printer: String,
    pub sequence: i32,
    pub job_id: i32,
    pub job_name: String,
    pub job_state: i32,
    /// The job or the printer reasons, whichever this event carried.
    pub reasons: String,
}

/// A notification as plain values.
pub struct NotificationView {
    pub event: Seq<char>,
    pub printer: Seq<char>,
    pub sequence: i32,
    pub job_id: i32,
    pub job_name: Seq<char>,
    pub job_state: i32,
    pub reasons: Seq<char>,
}

impl View for Notification {
    type V = NotificationView;

    open spec fn view(&self) -> NotificationView {
        NotificationView {
            event: self.event@,
            printer: self.printer@,
            sequence: self.sequence,
            job_id: self.job_id,
            job_name: self.job_name@,
            job_state: self.job_state,
            reasons: self.reasons@,
        }
    }
}

pub open spec fn empty_notification() -> NotificationView {
    NotificationView {
        event: Seq::empty(),
        printer: Seq::empty(),
        sequence: 0,
        job_id: 0,
        job_name: Seq::empty(),
        job_state: 0,
        reasons: Seq::empty(),
    }
}

impl Default for Notification {
    fn default() -> (r: Self)
        ensures
            r@ == empty_notification(),
    {
        Notification {
            event: String::new(),
            printer: String::new(),
            sequence: 0,
            job_id: 0,
            job_name: String::new(),
            job_state: 0,
            reasons: String::new(),
        }
    }
}

pub open spec fn text_or_empty(t: Option<Seq<char>>) -> Seq<char> {
    match t {
        Some(v) => v,
        None => Seq::empty(),
    }
}

/// A notification with one more attribute read into it.
pub open spec fn read_spec(n: NotificationView, name: Seq<char>, a: IppAttributeView) -> NotificationView {
    if name == "notify-subscribed-event"@ {
        NotificationView { event: text_or_empty(a.text), ..n }
    } else if name == "printer-name"@ {
        NotificationView { printer: text_or_empty(a.text), ..n }
    } else if name == "notify-sequence-number"@ {
        NotificationView { sequence: a.integer, ..n }
    } else if name == "job-id"@ {
        NotificationView { job_id: a.integer, ..n }
    } else if name == "job-name"@ {
        NotificationView { job_name: text_or_empty(a.text), ..n }
    } else if name == "job-state"@ {
        NotificationView { job_state: a.integer, ..n }
    } else if name == "job-state-reasons"@ || name == "printer-state-reasons"@ {
        NotificationView { reasons: text_or_empty(a.text), ..n }
    } else {
        n
    }
}

fn text_of(a: &IppAttribute) -> (r: String)
    ensures
        r@ == text_or_empty(a@.text),
{
    match &a.text {
        Some(t) => string_of(chars_of(t.as_str())),
        None => String::new(),
    }
}

impl Notification {
    /// Reads one attribute of the event's group into the notification.
    pub fn read(&mut self, name: &str, attribute: &IppAttribute)
        ensures
            final(self)@ == read_spec(old(self)@, name@, attribute@),
    {
        let n = chars_of(name);
        if eq_vec(&n, &chars_of("notify-subscribed-event")) {
            self.event = text_of(attribute);
        } else if eq_vec(&n, &chars_of("printer-name")) {
            self.printer = text_of(attribute);
        } else if eq_vec(&n, &chars_of("notify-sequence-number")) {
            self.sequence = attribute.integer;
        } else if eq_vec(&n, &chars_of("job-id")) {
            self.job_id = attribute.integer;
        } else if eq_vec(&n, &chars_of("job-name")) {
            self.job_name = text_of(attribute);
        } else if eq_vec(&n, &chars_of("job-state")) {
            self.job_state = attribute.integer;
        } else if eq_vec(&n, &chars_of("job-state-reasons")) || eq_vec(
            &n,
            &chars_of("printer-state-reasons"),
        ) {
            self.reasons = text_of(attribute);
        }
    }
}

/// Whether an event name is one of the job events.
pub open spec fn is_job_event(event: Seq<char>) -> bool {
    event == "job-created"@ || event == "job-completed"@ || event == "job-progress"@ || event
        == "job-state-changed"@ || event == "job-stopped"@
}

/// What an event means: nothing without a printer; a job event changes the
/// printer's jobs; a deleted printer is removed; any other printer event,
/// recognized or not, is worth re-reading the printer for.
pub open spec fn event_spec(n: NotificationView) -> Option<(int, Seq<char>)> {
    if n.printer.len() == 0 {
        None
    } else if is_job_event(n.event) {
        Some((0, n.printer))
    } else if n.event == "printer-deleted"@ {
        Some((2, n.printer))
    } else if starts_with(n.event, "printer-"@) {
        Some((1, n.printer))
    } else {
        None
    }
}

pub open spec fn event_view(e: Event) -> (int, Seq<char>) {
    match e {
        Event::JobsChanged(p) => (0, p@),
        Event::PrinterChanged(p) => (1, p@),
        Event::PrinterRemoved(p) => (2, p@),
    }
}

impl Notification {
    /// What the notification means for the printers already known.
    pub fn into_event(self) -> (r: Option<Event>)
        ensures
            match r {
                Some(e) => event_spec(self@) == Some(event_view(e)),
                None => event_spec(self@) is None,
            },
    {
        if self.printer.as_str().unicode_len() == 0 {
            return None;
        }
        let e = chars_of(self.event.as_str());
        if eq_vec(&e, &chars_of("job-created")) || eq_vec(&e, &chars_of("job-completed"))
            || eq_vec(&e, &chars_of("job-progress")) || eq_vec(&e, &chars_of("job-state-changed"))
            || eq_vec(&e, &chars_of("job-stopped")) {
            Some(Event::JobsChanged(self.printer))
        } else if eq_vec(&e, &chars_of("printer-deleted")) {
            Some(Event::PrinterRemoved(self.printer))
        } else if starts_with_exec(&e, &chars_of("printer-")) {
            Some(Event::PrinterChanged(self.printer))
        } else {
            None
        }
    }
}

/// Reading a `Get-Notifications` response up to some attribute: the
/// notifications finished so far and the one being read. Events arrive one
/// group each, separated by a nameless attribute; only attributes of the
/// event-notification group are read.
pub open spec fn read_notifications_upto(attrs: Seq<IppAttributeView>) -> (
    Seq<NotificationView>,
    Option<NotificationView>,
)
    decreases attrs.len(),
{
    if attrs.len() == 0 {
        (Seq::empty(), None)
    } else {
        let (done, current) = read_notifications_upto(attrs.drop_last());
        let a = attrs.last();
        match a.name {
            None => (
                done + match current {
                    Some(n) => seq![n],
                    None => Seq::empty(),
                },
                None,
            ),
            Some(name) => if a.group != IppGroup::EventNotification {
                (done, current)
            } else {
                let base = match current {
                    Some(n) => n,
                    None => empty_notification(),
                };
                (done, Some(read_spec(base, name, a)))
            },
        }
    }
}

/// The notifications a `Get-Notifications` response carries.
pub open spec fn notifications_spec(attrs: Seq<IppAttributeView>) -> Seq<NotificationView> {
    let (done, current) = read_notifications_upto(attrs);
    done + match current {
        Some(n) => seq![n],
        None => Seq::empty(),
    }
}

pub open spec fn notifications_view(ns: Seq<Notification>) -> Seq<NotificationView> {
    ns.map_values(|n: Notification| n@)
}

/// Reads the notifications out of a `Get-Notifications` response.
pub fn read_notifications(attrs: &Vec<IppAttribute>) -> (r: Vec<Notification>)
    ensures
        notifications_view(r@) == notifications_spec(attributes_view(attrs@)),
{
    let mut notifications: Vec<Notification> = Vec::new();
    let mut current: Option<Notification> = None;
    let ghost all = attributes_view(attrs@);
    let mut i: usize = 0;
    while i < attrs.len()
        invariant
            i <= attrs.len(),
            all == attributes_view(attrs@),
            read_notifications_upto(all.take(i as int)) == (
                notifications_view(notifications@),
                match current {
                    Some(n) => Some(n@),
                    None => None::<NotificationView>,
                },
            ),
        decreases attrs.len() - i,
    {
        proof {
            assert(all.take(i + 1).drop_last() =~= all.take(i as int));
            assert(all.take(i + 1).last() == attrs@[i as int]@);
        }
        let attribute = &attrs[i];
        match &attribute.name {
            None => {
                let ghost before = notifications_view(notifications@);
                match current {
                    Some(n) => {
                        notifications.push(n);
                        assert(notifications_view(notifications@) =~= before + seq![n@]);
                    },
                    None => {
                        assert(notifications_view(notifications@) =~= before + Seq::empty());
                    },
                }
                current = None;
            },
            Some(name) => {
                if attribute.group == IppGroup::EventNotification {
                    let mut n = match current {
                        Some(n) => n,
                        None => Notification::default(),
                    };
                    n.read(name.as_str(), attribute);
                    current = Some(n);
                }
            },
        }
        i += 1;
    }
    assert(all.take(attrs.len() as int) =~= all);
    let ghost before = notifications_view(notifications@);
    match current {
        Some(n) => {
            notifications.push(n);
            assert(notifications_view(notifications@) =~= before + seq![n@]);
        },
        None => {
            assert(notifications_view(notifications@) =~= before + Seq::empty());
        },
    }
    notifications
}

/// The largest sequence number among the notifications, or zero.
pub open spec fn highest_sequence_spec(ns: Seq<NotificationView>) -> int
    decreases ns.len(),
{
    if ns.len() == 0 {
        0
    } else {
        let rest = highest_sequence_spec(ns.drop_last());
        if ns.last().sequence > rest {
            ns.last().sequence as int
        } else {
            rest
        }
    }
}

/// The highest sequence number read, counted for ignored events too,
/// because the server sends everything from the sequence number it is given.
pub fn highest_sequence(notifications: &Vec<Notification>) -> (r: i32)
    ensures
        r == highest_sequence_spec(notifications_view(notifications@)),
{
    let mut highest: i32 = 0;
    let mut i: usize = 0;
    while i < notifications.len()
        invariant
            i <= notifications.len(),
            highest == highest_sequence_spec(notifications_view(notifications@.take(i as int))),
        decreases notifications.len() - i,
    {
        proof {
            let pre = notifications_view(notifications@.take(i + 1));
            assert(pre.drop_last() =~= notifications_view(notifications@.take(i as int)));
            assert(pre.last() == notifications@[i as int]@);
        }
        if notifications[i].sequence > highest {
            highest = notifications[i].sequence;
        }
        i += 1;
    }
    assert(notifications@.take(notifications.len() as int) =~= notifications@);
    highest
}

/// The sequence number to ask from next: one past the highest read, or the
/// same as before when nothing newer came.
pub fn next_sequence(next: i32, highest: i32) -> (r: i32)
    requires
        highest < i32::MAX,
    ensures
        r == if highest >= next { highest + 1 } else { next as int },
{
    if highest >= next {
        highest + 1
    } else {
        next
    }
}

/// What an IPP `job-state` value means.
pub open spec fn job_state_spec(code: i32) -> JobState {
    if code == 3 {
        JobState::Pending
    } else if code == 4 {
        JobState::Held
    } else if code == 5 {
        JobState::Processing
    } else if code == 6 {
        JobState::Stopped
    } else if code == 7 {
        JobState::Canceled
    } else if code == 8 {
        JobState::Aborted
    } else if code == 9 {
        JobState::Completed
    } else {
        JobState::Unknown
    }
}

/// Reads an IPP `job-state` value (RFC 8011: 3 pending, 4 held, 5
/// processing, 6 stopped, 7 canceled, 8 aborted, 9 completed).
pub fn job_state(code: i32) -> (r: JobState)
    ensures
        r == job_state_spec(code),
{
    if code == 3 {
        JobState::Pending
    } else if code == 4 {
        JobState::Held
    } else if code == 5 {
        JobState::Processing
    } else if code == 6 {
        JobState::Stopped
    } else if code == 7 {
        JobState::Canceled
    } else if code == 8 {
        JobState::Aborted
    } else if code == 9 {
        JobState::Completed
    } else {
        JobState::Unknown
    }
}

// ------------------------------------------------------------ announcements

/// `str::trim_end_matches` for a string pattern.
pub open spec fn strip_all_suffix(s: Seq<char>, p: Seq<char>) -> Seq<char>
    decreases s.len(),
{
    if p.len() > 0 && ends_with(s, p) {
        strip_all_suffix(s.take(s.len() - p.len()), p)
    } else {
        s
    }
}

fn strip_all_suffix_exec(v: &Vec<char>, p: &Vec<char>) -> (r: Vec<char>)
    ensures
        r@ == strip_all_suffix(v@, p@),
{
    let mut cur = slice_of(v, 0, v.len());
    assert(cur@ =~= v@);
    while p.len() > 0 && ends_with_exec(&cur, p)
        invariant
            strip_all_suffix(v@, p@) == strip_all_suffix(cur@, p@),
        decreases cur.len(),
    {
        cur = slice_of(&cur, 0, cur.len() - p.len());
    }
    cur
}

/// A reason without the severity servers append to it.
pub open spec fn without_severity(reason: Seq<char>) -> Seq<char> {
    strip_all_suffix(
        strip_all_suffix(strip_all_suffix(trim(reason), "-error"@), "-warning"@),
        "-report"@,
    )
}

/// The phrase a reason keyword reads as in a notification.
pub open spec fn phrase_for(reason: Seq<char>) -> Option<&'static str> {
    if reason == "media-empty"@ || reason == "media-needed"@ {
        Some("out of paper")
    } else if reason == "media-jam"@ {
        Some("paper jam")
    } else if reason == "cover-open"@ || reason == "door-open"@ {
        Some("cover is open")
    } else if reason == "marker-supply-empty"@ || reason == "toner-empty"@ {
        Some("out of toner")
    } else if reason == "marker-supply-low"@ || reason == "toner-low"@ {
        Some("low on toner")
    } else if reason == "offline"@ || reason == "shutdown"@ {
        Some("offline")
    } else {
        None
    }
}

/// The keywords that have a phrase are distinct texts.
proof fn phrase_keywords_distinct()
    ensures
        "media-empty"@ != "media-needed"@,
        "media-empty"@ != "media-jam"@,
        "media-empty"@ != "cover-open"@,
        "media-empty"@ != "door-open"@,
        "media-empty"@ != "marker-supply-empty"@,
        "media-empty"@ != "toner-empty"@,
        "media-empty"@ != "marker-supply-low"@,
        "media-empty"@ != "toner-low"@,
        "media-empty"@ != "offline"@,
        "media-empty"@ != "shutdown"@,
        "media-needed"@ != "media-jam"@,
        "media-needed"@ != "cover-open"@,
        "media-needed"@ != "door-open"@,
        "media-needed"@ != "marker-supply-empty"@,
        "media-needed"@ != "toner-empty"@,
        "media-needed"@ != "marker-supply-low"@,
        "media-needed"@ != "toner-low"@,
        "media-needed"@ != "offline"@,
        "media-needed"@ != "shutdown"@,
        "media-jam"@ != "cover-open"@,
        "media-jam"@ != "door-open"@,
        "media-jam"@ != "marker-supply-empty"@,
        "media-jam"@ != "toner-empty"@,
        "media-jam"@ != "marker-supply-low"@,
        "media-jam"@ != "toner-low"@,
        "media-jam"@ != "offline"@,
        "media-jam"@ != "shutdown"@,
        "cover-open"@ != "door-open"@,
        "cover-open"@ != "marker-supply-empty"@,
        "cover-open"@ != "toner-empty"@,
        "cover-open"@ != "marker-supply-low"@,
        "cover-open"@ != "toner-low"@,
        "cover-open"@ != "offline"@,
        "cover-open"@ != "shutdown"@,
        "door-open"@ != "marker-supply-empty"@,
        "door-open"@ != "toner-empty"@,
        "door-open"@ != "marker-supply-low"@,
        "door-open"@ != "toner-low"@,
        "door-open"@ != "offline"@,
        "door-open"@ != "shutdown"@,
        "marker-supply-empty"@ != "toner-empty"@,
        "marker-supply-empty"@ != "marker-supply-low"@,
        "marker-supply-empty"@ != "toner-low"@,
        "marker-supply-empty"@ != "offline"@,
        "marker-supply-empty"@ != "shutdown"@,
        "toner-empty"@ != "marker-supply-low"@,
        "toner-empty"@ != "toner-low"@,
        "toner-empty"@ != "offline"@,
        "toner-empty"@ != "shutdown"@,
        "marker-supply-low"@ != "toner-low"@,
        "marker-supply-low"@ != "offline"@,
        "marker-supply-low"@ != "shutdown"@,
        "toner-low"@ != "offline"@,
        "toner-low"@ != "shutdown"@,
        "offline"@ != "shutdown"@,
{
    reveal_strlit("media-empty");
    reveal_strlit("media-needed");
    reveal_strlit("media-jam");
    reveal_strlit("cover-open");
    reveal_strlit("door-open");
    reveal_strlit("marker-supply-empty");
    reveal_strlit("toner-empty");
    reveal_strlit("marker-supply-low");
    reveal_strlit("toner-low");
    reveal_strlit("offline");
    reveal_strlit("shutdown");
    assert("media-empty"@[6] != "media-needed"@[6]);
    assert("media-empty"@[6] != "media-jam"@[6]);
    assert("media-empty"@[0] != "cover-open"@[0]);
    assert("media-empty"@[0] != "door-open"@[0]);
    assert("media-empty"@[1] != "marker-supply-empty"@[1]);
    assert("media-empty"@[0] != "toner-empty"@[0]);
    assert("media-empty"@[1] != "marker-supply-low"@[1]);
    assert("media-empty"@[0] != "toner-low"@[0]);
    assert("media-empty"@[0] != "offline"@[0]);
    assert("media-empty"@[0] != "shutdown"@[0]);
    assert("media-needed"@[6] != "media-jam"@[6]);
    assert("media-needed"@[0] != "cover-open"@[0]);
    assert("media-needed"@[0] != "door-open"@[0]);
    assert("media-needed"@[1] != "marker-supply-empty"@[1]);
    assert("media-needed"@[0] != "toner-empty"@[0]);
    assert("media-needed"@[1] != "marker-supply-low"@[1]);
    assert("media-needed"@[0] != "toner-low"@[0]);
    assert("media-needed"@[0] != "offline"@[0]);
    assert("media-needed"@[0] != "shutdown"@[0]);
    assert("media-jam"@[0] != "cover-open"@[0]);
    assert("media-jam"@[0] != "door-open"@[0]);
    assert("media-jam"@[1] != "marker-supply-empty"@[1]);
    assert("media-jam"@[0] != "toner-empty"@[0]);
    assert("media-jam"@[1] != "marker-supply-low"@[1]);
    assert("media-jam"@[0] != "toner-low"@[0]);
    assert("media-jam"@[0] != "offline"@[0]);
    assert("media-jam"@[0] != "shutdown"@[0]);
    assert("cover-open"@[0] != "door-open"@[0]);
    assert("cover-open"@[0] != "marker-supply-empty"@[0]);
    assert("cover-open"@[0] != "toner-empty"@[0]);
    assert("cover-open"@[0] != "marker-supply-low"@[0]);
    assert("cover-open"@[0] != "toner-low"@[0]);
    assert("cover-open"@[0] != "offline"@[0]);
    assert("cover-open"@[0] != "shutdown"@[0]);
    assert("door-open"@[0] != "marker-supply-empty"@[0]);
    assert("door-open"@[0] != "toner-empty"@[0]);
    assert("door-open"@[0] != "marker-supply-low"@[0]);
    assert("door-open"@[0] != "toner-low"@[0]);
    assert("door-open"@[0] != "offline"@[0]);
    assert("door-open"@[0] != "shutdown"@[0]);
    assert("marker-supply-empty"@[0] != "toner-empty"@[0]);
    assert("marker-supply-empty"@[14] != "marker-supply-low"@[14]);
    assert("marker-supply-empty"@[0] != "toner-low"@[0]);
    assert("marker-supply-empty"@[0] != "offline"@[0]);
    assert("marker-supply-empty"@[0] != "shutdown"@[0]);
    assert("toner-empty"@[0] != "marker-supply-low"@[0]);
    assert("toner-empty"@[6] != "toner-low"@[6]);
    assert("toner-empty"@[0] != "offline"@[0]);
    assert("toner-empty"@[0] != "shutdown"@[0]);
    assert("marker-supply-low"@[0] != "toner-low"@[0]);
    assert("marker-supply-low"@[0] != "offline"@[0]);
    assert("marker-supply-low"@[0] != "shutdown"@[0]);
    assert("toner-low"@[0] != "offline"@[0]);
    assert("toner-low"@[0] != "shutdown"@[0]);
    assert("offline"@[0] != "shutdown"@[0]);
}

/// The phrases are distinct texts.
proof fn phrases_distinct()
    ensures
        "out of paper"@ != "paper jam"@,
        "out of paper"@ != "cover is open"@,
        "out of paper"@ != "out of toner"@,
        "out of paper"@ != "low on toner"@,
        "out of paper"@ != "offline"@,
        "paper jam"@ != "cover is open"@,
        "paper jam"@ != "out of toner"@,
        "paper jam"@ != "low on toner"@,
        "paper jam"@ != "offline"@,
        "cover is open"@ != "out of toner"@,
        "cover is open"@ != "low on toner"@,
        "cover is open"@ != "offline"@,
        "out of toner"@ != "low on toner"@,
        "out of toner"@ != "offline"@,
        "low on toner"@ != "offline"@,
{
    reveal_strlit("out of paper");
    reveal_strlit("paper jam");
    reveal_strlit("cover is open");
    reveal_strlit("out of toner");
    reveal_strlit("low on toner");
    reveal_strlit("offline");
    assert("out of paper"@[0] != "paper jam"@[0]);
    assert("out of paper"@[0] != "cover is open"@[0]);
    assert("out of paper"@[7] != "out of toner"@[7]);
    assert("out of paper"@[0] != "low on toner"@[0]);
    assert("out of paper"@[1] != "offline"@[1]);
    assert("paper jam"@[0] != "cover is open"@[0]);
    assert("paper jam"@[0] != "out of toner"@[0]);
    assert("paper jam"@[0] != "low on toner"@[0]);
    assert("paper jam"@[0] != "offline"@[0]);
    assert("cover is open"@[0] != "out of toner"@[0]);
    assert("cover is open"@[0] != "low on toner"@[0]);
    assert("cover is open"@[0] != "offline"@[0]);
    assert("out of toner"@[0] != "low on toner"@[0]);
    assert("out of toner"@[1] != "offline"@[1]);
    assert("low on toner"@[0] != "offline"@[0]);
}

/// Each phrase is given to exactly the keywords listed beside it, and
/// every other keyword has none.
pub proof fn each_phrase_has_its_keywords(keyword: Seq<char>)
    ensures
        (phrase_for(keyword) is Some && phrase_for(keyword)->0@ == "out of paper"@) <==> (keyword == "media-empty"@ || keyword == "media-needed"@),
        (phrase_for(keyword) is Some && phrase_for(keyword)->0@ == "paper jam"@) <==> (keyword == "media-jam"@),
        (phrase_for(keyword) is Some && phrase_for(keyword)->0@ == "cover is open"@) <==> (keyword == "cover-open"@ || keyword == "door-open"@),
        (phrase_for(keyword) is Some && phrase_for(keyword)->0@ == "out of toner"@) <==> (keyword == "marker-supply-empty"@ || keyword == "toner-empty"@),
        (phrase_for(keyword) is Some && phrase_for(keyword)->0@ == "low on toner"@) <==> (keyword == "marker-supply-low"@ || keyword == "toner-low"@),
        (phrase_for(keyword) is Some && phrase_for(keyword)->0@ == "offline"@) <==> (keyword == "offline"@ || keyword == "shutdown"@),
        phrase_for(keyword) is None <==> !(keyword == "media-empty"@ || keyword == "media-needed"@ || keyword == "media-jam"@ || keyword == "cover-open"@ || keyword == "door-open"@ || keyword == "marker-supply-empty"@ || keyword == "toner-empty"@ || keyword == "marker-supply-low"@ || keyword == "toner-low"@ || keyword == "offline"@ || keyword == "shutdown"@),
{
    phrase_keywords_distinct();
    phrases_distinct();
    reveal_strlit("media-empty");
    reveal_strlit("media-needed");
    reveal_strlit("media-jam");
    reveal_strlit("cover-open");
    reveal_strlit("door-open");
    reveal_strlit("marker-supply-empty");
    reveal_strlit("toner-empty");
    reveal_strlit("marker-supply-low");
    reveal_strlit("toner-low");
    reveal_strlit("offline");
    reveal_strlit("shutdown");
    reveal_strlit("out of paper");
    reveal_strlit("paper jam");
    reveal_strlit("cover is open");
    reveal_strlit("out of toner");
    reveal_strlit("low on toner");
    reveal_strlit("offline");
    if keyword == "media-empty"@ {
        assert(phrase_for(keyword) == Some("out of paper"));
    } else if keyword == "media-needed"@ {
        assert(phrase_for(keyword) == Some("out of paper"));
    } else if keyword == "media-jam"@ {
        assert(phrase_for(keyword) == Some("paper jam"));
    } else if keyword == "cover-open"@ {
        assert(phrase_for(keyword) == Some("cover is open"));
    } else if keyword == "door-open"@ {
        assert(phrase_for(keyword) == Some("cover is open"));
    } else if keyword == "marker-supply-empty"@ {
        assert(phrase_for(keyword) == Some("out of toner"));
    } else if keyword == "toner-empty"@ {
        assert(phrase_for(keyword) == Some("out of toner"));
    } else if keyword == "marker-supply-low"@ {
        assert(phrase_for(keyword) == Some("low on toner"));
    } else if keyword == "toner-low"@ {
        assert(phrase_for(keyword) == Some("low on toner"));
    } else if keyword == "offline"@ {
        assert(phrase_for(keyword) == Some("offline"));
    } else if keyword == "shutdown"@ {
        assert(phrase_for(keyword) == Some("offline"));
    } else {
        assert(phrase_for(keyword) is None);
    }
}

/// The phrase of a list is the phrase of its first piece that has one.
pub proof fn first_phrase_is_first_recognized(pieces: Seq<Seq<char>>, i: int)
    requires
        0 <= i < pieces.len(),
        forall|j: int| 0 <= j < i ==> phrase_for(without_severity(#[trigger] pieces[j])) is None,
        phrase_for(without_severity(pieces[i])) is Some,
    ensures
        first_phrase(pieces) == phrase_for(without_severity(pieces[i])),
    decreases i,
{
    if i > 0 {
        assert(phrase_for(without_severity(pieces[0])) is None);
        let rest = pieces.drop_first();
        assert forall|j: int| 0 <= j < i - 1 implies phrase_for(without_severity(#[trigger] rest[j])) is None by {
            assert(rest[j] == pieces[j + 1]);
        }
        assert(rest[i - 1] == pieces[i]);
        first_phrase_is_first_recognized(rest, i - 1);
    }
}

/// The pieces of a reasons value, split at commas and spaces.
pub open spec fn reason_pieces(reasons: Seq<char>) -> Seq<Seq<char>> {
    split_on(reasons, seq![',', ' '])
}

/// An event whose first recognized reason, without its severity, is
/// `offline` or `shutdown` reads as offline.
pub proof fn offline_reasons_read_as_offline(reasons: Seq<char>, i: int)
    requires
        0 <= i < reason_pieces(reasons).len(),
        forall|j: int| 0 <= j < i ==> phrase_for(without_severity(#[trigger] reason_pieces(reasons)[j])) is None,
        without_severity(reason_pieces(reasons)[i]) == "offline"@ || without_severity(reason_pieces(reasons)[i]) == "shutdown"@,
    ensures
        reason_phrase_spec(reasons) is Some,
        reason_phrase_spec(reasons)->0@ == "offline"@,
{
    let pieces = reason_pieces(reasons);
    each_phrase_has_its_keywords(without_severity(pieces[i]));
    first_phrase_is_first_recognized(pieces, i);
}

/// The phrase of the first reason in the list that has one.
pub open spec fn first_phrase(reasons: Seq<Seq<char>>) -> Option<&'static str>
    decreases reasons.len(),
{
    if reasons.len() == 0 {
        None
    } else {
        match phrase_for(without_severity(reasons[0])) {
            Some(p) => Some(p),
            None => first_phrase(reasons.drop_first()),
        }
    }
}

/// The first reason worth reading among reasons separated by commas or
/// spaces.
pub open spec fn reason_phrase_spec(reasons: Seq<char>) -> Option<&'static str> {
    first_phrase(split_on(reasons, seq![',', ' ']))
}

fn phrase_for_exec(reason: &Vec<char>) -> (r: Option<&'static str>)
    ensures
        r == phrase_for(reason@),
{
    let is = |w: &str| -> (b: bool)
        ensures
            b == (reason@ == w@),
        { eq_vec(reason, &chars_of(w)) };
    if is("media-empty") || is("media-needed") {
        Some("out of paper")
    } else if is("media-jam") {
        Some("paper jam")
    } else if is("cover-open") || is("door-open") {
        Some("cover is open")
    } else if is("marker-supply-empty") || is("toner-empty") {
        Some("out of toner")
    } else if is("marker-supply-low") || is("toner-low") {
        Some("low on toner")
    } else if is("offline") || is("shutdown") {
        Some("offline")
    } else {
        None
    }
}

/// The first reason worth reading, if the event carried one.
pub fn reason_phrase(reasons: &str) -> (r: Option<&'static str>)
    ensures
        r == reason_phrase_spec(reasons@),
{
    let seps = vec![',', ' '];
    assert(seps@ =~= seq![',', ' ']);
    let pieces = split_on_exec(&chars_of(reasons), &seps);
    let ghost all = pieces.deep_view();
    let error = chars_of("-error");
    let warning = chars_of("-warning");
    let report = chars_of("-report");
    let mut i: usize = 0;
    assert(all.skip(0) =~= all);
    while i < pieces.len()
        invariant
            i <= pieces.len(),
            all == pieces.deep_view(),
            all.len() == pieces.len(),
            all == split_on(reasons@, seq![',', ' ']),
            error@ == "-error"@,
            warning@ == "-warning"@,
            report@ == "-report"@,
            first_phrase(all) == first_phrase(all.skip(i as int)),
        decreases pieces.len() - i,
    {
        proof {
            assert(all.skip(i as int).drop_first() =~= all.skip(i + 1));
            assert(all.skip(i as int)[0] == pieces[i as int]@);
        }
        let keyword = strip_all_suffix_exec(
            &strip_all_suffix_exec(&strip_all_suffix_exec(&trim_vec(&pieces[i]), &error), &warning),
            &report,
        );
        let phrase = phrase_for_exec(&keyword);
        if phrase.is_some() {
            return phrase;
        }
        i += 1;
    }
    None
}

/// A desktop notification to show.
#[derive(Clone, Debug, PartialEq, Eq)]
pub struct Announcement {
    pub summary: &'static str,
    pub body: String,
    pub icon: &'static str,
}

/// The headline of a job's ending: completed, stopped or failed; other
/// states are no ending worth announcing.
pub open spec fn ending_summary(state: JobState) -> Option<&'static str> {
    match state {
        JobState::Completed => Some("Printing complete"),
        JobState::Stopped => Some("Printing stopped"),
        JobState::Aborted | JobState::Failed => Some("Printing failed"),
        _ => None,
    }
}

/// The ending headlines are distinct texts.
proof fn ending_summaries_distinct()
    ensures
        "Printing complete"@ != "Printing stopped"@,
        "Printing complete"@ != "Printing failed"@,
        "Printing stopped"@ != "Printing failed"@,
{
    reveal_strlit("Printing complete");
    reveal_strlit("Printing stopped");
    reveal_strlit("Printing failed");
    assert("Printing complete"@[9] != "Printing stopped"@[9]);
    assert("Printing complete"@[9] != "Printing failed"@[9]);
    assert("Printing stopped"@[9] != "Printing failed"@[9]);
}

/// A job's ending is announced by the headline of how it ended: completed,
/// stopped, or failed (aborted or failed); other states are no ending.
pub proof fn each_ending_has_its_headline(state: JobState)
    ensures
        (ending_summary(state) is Some && ending_summary(state)->0@ == "Printing complete"@) <==> (state is Completed),
        (ending_summary(state) is Some && ending_summary(state)->0@ == "Printing stopped"@) <==> (state is Stopped),
        (ending_summary(state) is Some && ending_summary(state)->0@ == "Printing failed"@) <==> (state is Aborted || state is Failed),
        ending_summary(state) is None <==> !(state is Completed || state is Stopped || state is Aborted || state is Failed),
{
    ending_summaries_distinct();
    reveal_strlit("Printing complete");
    reveal_strlit("Printing stopped");
    reveal_strlit("Printing failed");
}

/// The body of a job's announcement: the document (or `Document` when it
/// has no name) on the printer, then, unless the job completed, the first
/// reason worth reading.
pub open spec fn ending_body(n: NotificationView, completed: bool) -> Seq<char> {
    let document = if n.job_name.len() == 0 {
        "Document"@
    } else {
        n.job_name
    };
    let base = document + " on "@ + n.printer;
    if !completed && reason_phrase_spec(n.reasons) is Some {
        base + " — "@ + reason_phrase_spec(n.reasons)->0@
    } else {
        base
    }
}

/// What each job was last reported as, because a resubscribe replays
/// endings.
pub struct Jobs {
    pub last_state: HashMap<i32, i32>,
}

impl Jobs {
    /// No job seen yet.
    pub fn new() -> (r: Self)
        ensures
            r.last_state@ == Map::<i32, i32>::empty(),
    {
        Jobs { last_state: HashMap::new() }
    }

    /// Records a job event and says what to announce: only a job that
    /// reached its end (completed, stopped or failed; a cancelled job is
    /// the one ending the user already knows about), and only the first
    /// time that ending is reported.
    pub fn announce_end(&mut self, notification: &Notification) -> (r: Option<Announcement>)
        ensures
            !starts_with(notification@.event, "job-"@) || ending_summary(job_state_spec(
                notification.job_state,
            )) is None ==> final(self).last_state@ == old(self).last_state@ && r is None,
            starts_with(notification@.event, "job-"@) && ending_summary(job_state_spec(
                notification.job_state,
            )) is Some ==> {
                &&& final(self).last_state@ == old(self).last_state@.insert(
                    notification.job_id,
                    notification.job_state,
                )
                &&& (old(self).last_state@.contains_key(notification.job_id) && old(
                    self,
                ).last_state@[notification.job_id] == notification.job_state) <==> r is None
                &&& r matches Some(a) ==> a.summary == ending_summary(
                    job_state_spec(notification.job_state),
                )->0 && a.body@ == ending_body(
                    notification@,
                    job_state_spec(notification.job_state) is Completed,
                ) && a.icon == if job_state_spec(notification.job_state) is Completed {
                    "printer-symbolic"
                } else {
                    "printer-error-symbolic"
                }
            },
    {
        if !starts_with_exec(&chars_of(notification.event.as_str()), &chars_of("job-")) {
            return None;
        }
        let state = job_state(notification.job_state);
        let completed = match state {
            JobState::Completed => true,
            _ => false,
        };
        let summary = match state {
            JobState::Completed => "Printing complete",
            JobState::Stopped => "Printing stopped",
            JobState::Aborted | JobState::Failed => "Printing failed",
            _ => {
                return None;
            },
        };
        let previous = self.last_state.insert(notification.job_id, notification.job_state);
        match previous {
            Some(p) => if p == notification.job_state {
                return None;
            },
            None => {},
        }
        let mut body: Vec<char> = Vec::new();
        if notification.job_name.as_str().unicode_len() == 0 {
            push_str(&mut body, "Document");
        } else {
            push_str(&mut body, notification.job_name.as_str());
        }
        push_str(&mut body, " on ");
        push_str(&mut body, notification.printer.as_str());
        if !completed {
            match reason_phrase(notification.reasons.as_str()) {
                Some(reason) => {
                    push_str(&mut body, " — ");
                    push_str(&mut body, reason);
                },
                None => {},
            }
        }
        let icon = if completed {
            "printer-symbolic"
        } else {
            "printer-error-symbolic"
        };
        Some(Announcement { summary, body: string_of(body), icon })
    }
}

/// The announcement of a printer that is no longer offered.
pub fn printer_removed(printer_name: &str) -> (r: Announcement)
    ensures
        r.summary == "Printer removed",
        r.body@ == printer_name@,
        r.icon == "printer-symbolic",
{
    Announcement {
        summary: "Printer removed",
        body: string_of(chars_of(printer_name)),
        icon: "printer-symbolic",
    }
}

/// The announcement of a printer that turned up after the first
/// enumeration: its name, and its location when it has one.
pub fn printer_available(name: &str, location: Option<&str>) -> (r: Announcement)
    ensures
        r.summary == "Printer available",
        r.icon == "printer-symbolic",
        r.body@ == match location {
            Some(l) => if trim(l@).len() > 0 {
                name@ + " — "@ + l@
            } else {
                name@
            },
            None => name@,
        },
{
    let mut body = chars_of(name);
    match location {
        Some(l) => {
            if trim_vec(&chars_of(l)).len() > 0 {
                push_str(&mut body, " — ");
                push_str(&mut body, l);
            }
        },
        None => {},
    }
    Announcement { summary: "Printer available", body: string_of(body), icon: "printer-symbolic" }
}

} // verus!
