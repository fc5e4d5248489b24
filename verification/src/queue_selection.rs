//! Which jobs of the print queue are selected, and how a click, a click
//! with Shift or Ctrl, a menu opened on a job and a new read of the queue
//! change the selection.

use vstd::prelude::*;
use crate::queue::{JobId, JobInfo, JobState};

verus! {

/// The selected jobs and the job a Shift-click range starts from.
pub struct JobSelection {
    /// The selected jobs; a job may stand more than once, as a set it is
    /// read by membership.
    pub selected: Vec<JobId>,
    pub anchor: Option<JobId>,
}

/// Whether `job` is selected.
pub open spec fn is_selected(sel: JobSelection, job: JobId) -> bool {
    sel.selected@.contains(job)
}

/// Where the first job with identifier `id` stands in the queue.
pub open spec fn job_position(jobs: Seq<JobInfo>, id: i32) -> Option<int>
    decreases jobs.len(),
{
    if jobs.len() == 0 {
        None
    } else if jobs[0].id == id {
        Some(0)
    } else {
        match job_position(jobs.drop_first(), id) {
            Some(k) => Some(k + 1),
            None => None,
        }
    }
}

/// Whether the queue between places `lo` and `hi`, both included, holds
/// a job with the identifier of `job`.
pub open spec fn in_span(jobs: Seq<JobInfo>, lo: int, hi: int, job: JobId) -> bool {
    exists|k: int| lo <= k <= hi && 0 <= k < jobs.len() && #[trigger] jobs[k].id == job.0
}

/// Whether the queue lists a job with the identifier of `job`.
pub open spec fn queued(jobs: Seq<JobInfo>, job: JobId) -> bool {
    exists|k: int| 0 <= k < jobs.len() && #[trigger] jobs[k].id == job.0
}

/// What clicking `job` does to the selection. A plain click selects only
/// it; a Ctrl-click toggles it; both make it the anchor. A Shift-click
/// selects the jobs from the anchor to it, added to the selection with
/// Ctrl and in place of it without; with no anchor it acts as a plain
/// click, and when the anchor or the job is not queued nothing changes.
pub open spec fn clicked(
    before: JobSelection,
    jobs: Seq<JobInfo>,
    job: JobId,
    shift: bool,
    control: bool,
    after: JobSelection,
) -> bool {
    if shift {
        match before.anchor {
            None => {
                &&& forall|x: JobId| is_selected(after, x) <==> x == job
                &&& after.anchor == Some(job)
            },
            Some(a) => match (job_position(jobs, a.0), job_position(jobs, job.0)) {
                (Some(ia), Some(ij)) => {
                    let lo = if ia <= ij { ia } else { ij };
                    let hi = if ia <= ij { ij } else { ia };
                    &&& forall|x: JobId| is_selected(after, x) <==> ((control && is_selected(before, x)) || in_span(jobs, lo, hi, x))
                    &&& after.anchor == before.anchor
                },
                _ => {
                    &&& after.selected@ == before.selected@
                    &&& after.anchor == before.anchor
                },
            },
        }
    } else if control {
        &&& forall|x: JobId| is_selected(after, x) <==> if x == job {
            !is_selected(before, job)
        } else {
            is_selected(before, x)
        }
        &&& after.anchor == Some(job)
    } else {
        &&& forall|x: JobId| is_selected(after, x) <==> x == job
        &&& after.anchor == Some(job)
    }
}

proof fn lemma_job_position(jobs: Seq<JobInfo>, id: i32)
    ensures
        job_position(jobs, id) matches Some(k) ==> 0 <= k < jobs.len() && jobs[k].id == id,
    decreases jobs.len(),
{
    if jobs.len() > 0 && jobs[0].id != id {
        lemma_job_position(jobs.drop_first(), id);
    }
}

fn job_position_exec(jobs: &Vec<JobInfo>, id: i32) -> (r: Option<usize>)
    ensures
        match job_position(jobs@, id) {
            Some(k) => r == Some(k as usize),
            None => r is None,
        },
        r matches Some(k) ==> k < jobs@.len() && jobs@[k as int].id == id,
{
    proof {
        lemma_job_position(jobs@, id);
        assert(jobs@.skip(0) =~= jobs@);
    }
    let mut i: usize = 0;
    while i < jobs.len()
        invariant
            i <= jobs@.len(),
            job_position(jobs@, id) == match job_position(jobs@.skip(i as int), id) {
                Some(k) => Some(k + i),
                None => None,
            },
        decreases jobs.len() - i,
    {
        proof {
            assert(jobs@.skip(i as int).drop_first() =~= jobs@.skip(i + 1));
            assert(jobs@.skip(i as int)[0] == jobs@[i as int]);
        }
        if jobs[i].id == id {
            return Some(i);
        }
        i += 1;
    }
    proof {
        assert(jobs@.skip(i as int).len() == 0);
    }
    None
}

fn contains_job(ids: &Vec<JobId>, job: JobId) -> (r: bool)
    ensures
        r == ids@.contains(job),
{
    let mut i: usize = 0;
    while i < ids.len()
        invariant
            i <= ids@.len(),
            forall|k: int| 0 <= k < i ==> ids@[k] != job,
        decreases ids.len() - i,
    {
        if ids[i] == job {
            return true;
        }
        i += 1;
    }
    false
}

fn without_job(ids: &Vec<JobId>, job: JobId) -> (r: Vec<JobId>)
    ensures
        forall|x: JobId| r@.contains(x) <==> (ids@.contains(x) && x != job),
{
    let mut kept: Vec<JobId> = Vec::new();
    let mut i: usize = 0;
    while i < ids.len()
        invariant
            i <= ids@.len(),
            forall|x: JobId| kept@.contains(x) <==> (ids@.take(i as int).contains(x) && x != job),
        decreases ids.len() - i,
    {
        let x = ids[i];
        let ghost prev = kept@;
        proof {
            assert(ids@.take(i + 1) =~= ids@.take(i as int).push(x));
        }
        if x != job {
            kept.push(x);
        }
        proof {
            assert forall|y: JobId| kept@.contains(y) <==> (ids@.take(i + 1).contains(y) && y != job) by {
                vstd::seq_lib::lemma_seq_contains_after_push(ids@.take(i as int), x, y);
                vstd::seq_lib::lemma_seq_contains_after_push(prev, x, y);
            }
        }
        i += 1;
    }
    proof {
        assert(ids@.take(ids@.len() as int) =~= ids@);
    }
    kept
}

fn only(job: JobId) -> (r: Vec<JobId>)
    ensures
        forall|x: JobId| r@.contains(x) <==> x == job,
{
    let r = vec![job];
    proof {
        assert forall|x: JobId| r@.contains(x) <==> x == job by {
            if x == job {
                assert(r@[0] == job);
            }
        }
    }
    r
}

/// Applies a click on `job` with the modifiers held.
pub fn select_job(sel: &mut JobSelection, jobs: &Vec<JobInfo>, job: JobId, shift: bool, control: bool)
    ensures
        clicked(*old(sel), jobs@, job, shift, control, *final(sel)),
{
    if shift {
        let anchor = match sel.anchor {
            None => {
                sel.selected = only(job);
                sel.anchor = Some(job);
                return;
            },
            Some(a) => a,
        };
        let anchor_idx = match job_position_exec(jobs, anchor.0) {
            Some(k) => k,
            None => return,
        };
        let job_idx = match job_position_exec(jobs, job.0) {
            Some(k) => k,
            None => return,
        };
        let (start, end) = if anchor_idx <= job_idx {
            (anchor_idx, job_idx)
        } else {
            (job_idx, anchor_idx)
        };
        let ghost before = sel.selected@;
        let mut chosen: Vec<JobId> = if control {
            sel.selected.clone()
        } else {
            Vec::new()
        };
        proof {
            if control {
                assert(chosen@ == before);
            }
        }
        let n = jobs.len();
        let mut k: usize = start;
        while k <= end
            invariant
                start <= k <= end + 1,
                end < n,
                n == jobs@.len(),
                forall|x: JobId| #![trigger chosen@.contains(x)] chosen@.contains(x) <==> ((control && before.contains(x)) || in_span(
                    jobs@,
                    start as int,
                    k - 1,
                    x,
                )),
            decreases end + 1 - k,
        {
            let id = JobId::from_raw(jobs[k].id);
            let ghost prev = chosen@;
            chosen.push(id);
            proof {
                assert forall|x: JobId| #![trigger chosen@.contains(x)] chosen@.contains(x) <==> ((control && before.contains(x)) || in_span(
                    jobs@,
                    start as int,
                    k as int,
                    x,
                )) by {
                    vstd::seq_lib::lemma_seq_contains_after_push(prev, id, x);
                    assert(jobs@[k as int].id == id.0);
                    if in_span(jobs@, start as int, k - 1, x) {
                        let w = choose|w: int| start <= w <= k - 1 && 0 <= w < jobs@.len() && #[trigger] jobs@[w].id == x.0;
                        assert(start <= w <= k && jobs@[w].id == x.0);
                        assert(in_span(jobs@, start as int, k as int, x));
                    }
                    if x == id {
                        assert(jobs@[k as int].id == x.0);
                        assert(in_span(jobs@, start as int, k as int, x));
                    }
                    if in_span(jobs@, start as int, k as int, x) {
                        let w = choose|w: int| start <= w <= k && 0 <= w < jobs@.len() && #[trigger] jobs@[w].id == x.0;
                        if w < k {
                            assert(in_span(jobs@, start as int, k - 1, x));
                        } else {
                            assert(x.0 == id.0);
                            assert(x == id);
                        }
                    }
                }
            }
            k = k + 1;
        }
        proof {
            lemma_job_position(jobs@, anchor.0);
            lemma_job_position(jobs@, job.0);
        }
        sel.selected = chosen;
    } else if control {
        if contains_job(&sel.selected, job) {
            sel.selected = without_job(&sel.selected, job);
        } else {
            let ghost prev = sel.selected@;
            sel.selected.push(job);
            proof {
                assert forall|x: JobId| sel.selected@.contains(x) <==> (prev.contains(x) || x == job) by {
                    vstd::seq_lib::lemma_seq_contains_after_push(prev, job, x);
                }
            }
        }
        sel.anchor = Some(job);
    } else {
        sel.selected = only(job);
        sel.anchor = Some(job);
    }
}

/// Opening the menu on a job keeps a selection that holds it, and
/// otherwise selects only it and makes it the anchor.
pub fn open_job_menu(sel: &mut JobSelection, job: JobId)
    ensures
        is_selected(*old(sel), job) ==> final(sel).selected@ == old(sel).selected@ && final(sel).anchor
            == old(sel).anchor,
        !is_selected(*old(sel), job) ==> (forall|x: JobId| is_selected(*final(sel), x) <==> x == job)
            && final(sel).anchor == Some(job),
{
    if !contains_job(&sel.selected, job) {
        sel.selected = only(job);
        sel.anchor = Some(job);
    }
}

/// Clears the selection and its anchor.
pub fn clear_selection(sel: &mut JobSelection)
    ensures
        final(sel).selected@.len() == 0,
        final(sel).anchor is None,
{
    sel.selected = Vec::new();
    sel.anchor = None;
}

/// After the queue was read again, only the selected jobs still queued
/// stay selected.
pub fn retain_queued(sel: &mut JobSelection, jobs: &Vec<JobInfo>)
    ensures
        forall|x: JobId| is_selected(*final(sel), x) <==> (is_selected(*old(sel), x) && queued(jobs@, x)),
        final(sel).anchor == old(sel).anchor,
{
    let ghost before = sel.selected@;
    let mut kept: Vec<JobId> = Vec::new();
    let mut i: usize = 0;
    while i < sel.selected.len()
        invariant
            i <= sel.selected@.len(),
            sel.selected@ == before,
            forall|x: JobId| kept@.contains(x) <==> (before.take(i as int).contains(x) && queued(jobs@, x)),
        decreases sel.selected.len() - i,
    {
        let x = sel.selected[i];
        proof {
            assert(before.take(i + 1) =~= before.take(i as int).push(x));
        }
        let found = job_position_exec(jobs, x.0);
        proof {
            lemma_job_position(jobs@, x.0);
            if queued(jobs@, x) {
                let w = choose|w: int| 0 <= w < jobs@.len() && #[trigger] jobs@[w].id == x.0;
                lemma_job_position_found(jobs@, x.0, w);
            }
        }
        let ghost prev = kept@;
        if found.is_some() {
            kept.push(x);
        }
        proof {
            assert forall|y: JobId| kept@.contains(y) <==> (before.take(i + 1).contains(y) && queued(jobs@, y)) by {
                vstd::seq_lib::lemma_seq_contains_after_push(before.take(i as int), x, y);
                vstd::seq_lib::lemma_seq_contains_after_push(prev, x, y);
                if found is Some && y == x {
                    let k = found->0;
                    assert(jobs@[k as int].id == y.0);
                }
            }
        }
        i += 1;
    }
    proof {
        assert(before.take(before.len() as int) =~= before);
    }
    sel.selected = kept;
}

proof fn lemma_job_position_found(jobs: Seq<JobInfo>, id: i32, w: int)
    requires
        0 <= w < jobs.len(),
        jobs[w].id == id,
    ensures
        job_position(jobs, id) is Some,
    decreases jobs.len(),
{
    if jobs[0].id != id {
        assert(jobs.drop_first()[w - 1] == jobs[w]);
        lemma_job_position_found(jobs.drop_first(), id, w - 1);
    }
}

/// Ctrl-clicking the same job twice leaves the selection as it was.
pub proof fn control_click_twice_restores_selection(
    first: JobSelection,
    second: JobSelection,
    third: JobSelection,
    jobs: Seq<JobInfo>,
    job: JobId,
)
    requires
        clicked(first, jobs, job, false, true, second),
        clicked(second, jobs, job, false, true, third),
    ensures
        forall|x: JobId| is_selected(third, x) <==> is_selected(first, x),
{
}

/// Whether a job has not ended.
pub open spec fn is_active(state: JobState) -> bool {
    state is Pending || state is Processing || state is Held || state is Stopped || state is Unknown
}

/// How many jobs of the queue have not ended.
pub open spec fn active_jobs(jobs: Seq<JobInfo>) -> nat
    decreases jobs.len(),
{
    if jobs.len() == 0 {
        0
    } else {
        active_jobs(jobs.drop_last()) + if is_active(jobs.last().state) {
            1nat
        } else {
            0nat
        }
    }
}

/// The jobs that count as active are exactly those that have not ended,
/// the ones that can still be cancelled: a completed, cancelled, aborted
/// or failed job never counts.
pub proof fn active_jobs_are_those_not_ended(jobs: Seq<JobInfo>)
    ensures
        active_jobs(jobs) == jobs.filter(|j: JobInfo| crate::queue::JobAction::Cancel.available_for(j.state)).len(),
        active_jobs(jobs) <= jobs.len(),
    decreases jobs.len(),
{
    reveal(Seq::filter);
    if jobs.len() > 0 {
        active_jobs_are_those_not_ended(jobs.drop_last());
    }
}

/// The count of active jobs the printer list is told after the queue was
/// read: the jobs that have not ended when ended jobs are shown too, and
/// every job read otherwise, as only active jobs were asked for.
pub fn active_job_count(jobs: &Vec<JobInfo>, show_completed: bool) -> (r: usize)
    ensures
        r == if show_completed {
            active_jobs(jobs@)
        } else {
            jobs@.len()
        },
{
    if !show_completed {
        return jobs.len();
    }
    let mut count: usize = 0;
    let mut i: usize = 0;
    while i < jobs.len()
        invariant
            i <= jobs@.len(),
            count == active_jobs(jobs@.take(i as int)),
            count <= i,
        decreases jobs.len() - i,
    {
        proof {
            assert(jobs@.take(i + 1).drop_last() =~= jobs@.take(i as int));
        }
        let active = match jobs[i].state {
            JobState::Pending | JobState::Processing | JobState::Held | JobState::Stopped | JobState::Unknown => true,
            _ => false,
        };
        if active {
            count = count + 1;
        }
        i += 1;
    }
    proof {
        assert(jobs@.take(jobs@.len() as int) =~= jobs@);
    }
    count
}

} // verus!
