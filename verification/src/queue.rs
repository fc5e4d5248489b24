//! The print queue: what can be done to which job, and which jobs are
//! selected.

use vstd::prelude::*;
use i18n_embed::fluent::FluentLanguageLoader;
use crate::localize::{localized, localized_count};

verus! {

/// Where a print job is in its life.
#[derive(Clone, Copy, Debug, PartialEq, Eq, Structural)]
pub enum JobState {
    Pending,
    Held,
    Processing,
    Stopped,
    Canceled,
    Aborted,
    Completed,
    Failed,
    Unknown,
}

/// What the queue shows of one job.
#[derive(Clone, Debug, PartialEq, Eq)]
pub struct JobInfo {
    pub id: i32,
    pub state: JobState,
}

/// What can be done to a job from the queue.
#[derive(Clone, Copy, Debug, PartialEq, Eq, Structural)]
pub enum JobAction {
    Pause,
    Resume,
    Cancel,
}

impl JobAction {
    /// Pausing applies to a job waiting or printing, resuming to one held or
    /// stopped, and cancelling to any job that has not ended.
    pub open spec fn available_for(self, state: JobState) -> bool {
        match self {
            JobAction::Pause => state is Pending || state is Processing,
            JobAction::Resume => state is Held || state is Stopped,
            JobAction::Cancel => !(state is Completed || state is Canceled || state is Aborted
                || state is Failed),
        }
    }

    pub fn is_available_for(self, state: &JobState) -> (r: bool)
        ensures
            r == self.available_for(*state),
    {
        match self {
            JobAction::Pause => matches!(state, JobState::Pending | JobState::Processing),
            JobAction::Resume => matches!(state, JobState::Held | JobState::Stopped),
            JobAction::Cancel => !matches!(
                state,
                JobState::Completed | JobState::Canceled | JobState::Aborted | JobState::Failed
            ),
        }
    }
}

/// CUPS job identifier.
#[derive(Clone, Copy, Debug, PartialEq, Eq, Hash, Structural)]
pub struct JobId(pub i32);

impl JobId {
    pub fn from_raw(raw: i32) -> (r: Self)
        ensures
            r.0 == raw,
    {
        JobId(raw)
    }

    pub fn into_raw(self) -> (r: i32)
        ensures
            r == self.0,
    {
        self.0
    }
}

pub open spec fn ids_of(ids: Seq<JobId>) -> Seq<i32> {
    ids.map_values(|id: JobId| id.0)
}

/// Operation on a non-empty set of jobs.
///
/// Captures the selected jobs so later selection changes cannot affect the
/// operation.
#[derive(Clone, Debug, PartialEq, Eq)]
pub struct JobOperation {
    pub action: JobAction,
    pub job_ids: Vec<JobId>,
}

/// Whether the queue lists a job with this id whose state allows the action.
pub open spec fn listed_allowing(jobs: Seq<JobInfo>, id: i32, action: JobAction) -> bool {
    exists|j: int| 0 <= j < jobs.len() && #[trigger] jobs[j].id == id && action.available_for(jobs[j].state)
}

/// Whether every job an operation names is listed and allows its action.
pub open spec fn operation_available(
    action: JobAction,
    job_ids: Seq<JobId>,
    jobs: Seq<JobInfo>,
) -> bool {
    forall|i: int| 0 <= i < job_ids.len() ==> listed_allowing(jobs, #[trigger] job_ids[i].0, action)
}

impl JobOperation {
    /// An operation on the given jobs; `None` where there are none.
    pub fn new(action: JobAction, job_ids: Vec<JobId>) -> (r: Option<Self>)
        ensures
            match r {
                Some(op) => op.action == action && op.job_ids@ == job_ids@ && job_ids@.len() > 0,
                None => job_ids@.len() == 0,
            },
    {
        if job_ids.len() == 0 {
            None
        } else {
            Some(JobOperation { action, job_ids })
        }
    }

    /// An operation on one job.
    pub fn single(action: JobAction, job_id: JobId) -> (r: Self)
        ensures
            r.action == action,
            r.job_ids@ == seq![job_id],
    {
        let mut job_ids = Vec::new();
        job_ids.push(job_id);
        JobOperation { action, job_ids }
    }

    /// Whether every job the operation names is still listed and still
    /// allows the action.
    pub fn is_available_for(&self, jobs: &Vec<JobInfo>) -> (r: bool)
        ensures
            r == operation_available(self.action, self.job_ids@, jobs@),
    {
        let mut i: usize = 0;
        while i < self.job_ids.len()
            invariant
                i <= self.job_ids.len(),
                forall|k: int|
                    0 <= k < i ==> listed_allowing(jobs@, #[trigger] self.job_ids@[k].0, self.action),
            decreases self.job_ids.len() - i,
        {
            let wanted = self.job_ids[i].0;
            let mut j: usize = 0;
            let mut found = false;
            while j < jobs.len()
                invariant
                    j <= jobs.len(),
                    wanted == self.job_ids@[i as int].0,
                    found ==> listed_allowing(jobs@, wanted, self.action),
                    !found ==> forall|m: int|
                        0 <= m < j ==> !(#[trigger] jobs@[m].id == wanted
                            && self.action.available_for(jobs@[m].state)),
                decreases jobs.len() - j,
            {
                if jobs[j].id == wanted && self.action.is_available_for(&jobs[j].state) {
                    found = true;
                }
                j += 1;
            }
            if !found {
                assert(!listed_allowing(jobs@, self.job_ids@[i as int].0, self.action));
                return false;
            }
            i += 1;
        }
        true
    }
}

/// The jobs, in queue order, that allow an action.
pub open spec fn ids_for_action(jobs: Seq<JobInfo>, action: JobAction) -> Seq<i32>
    decreases jobs.len(),
{
    if jobs.len() == 0 {
        Seq::empty()
    } else {
        let before = ids_for_action(jobs.drop_last(), action);
        if action.available_for(jobs.last().state) {
            before.push(jobs.last().id)
        } else {
            before
        }
    }
}

/// Every job in the queue that allows an action, in queue order.
pub fn job_ids_for_action(jobs: &Vec<JobInfo>, action: JobAction) -> (r: Vec<JobId>)
    ensures
        ids_of(r@) == ids_for_action(jobs@, action),
{
    let mut r: Vec<JobId> = Vec::new();
    let mut i: usize = 0;
    while i < jobs.len()
        invariant
            i <= jobs.len(),
            ids_of(r@) == ids_for_action(jobs@.take(i as int), action),
        decreases jobs.len() - i,
    {
        assert(jobs@.take(i + 1).drop_last() =~= jobs@.take(i as int));
        if action.is_available_for(&jobs[i].state) {
            let ghost before = r@;
            r.push(JobId(jobs[i].id));
            assert(ids_of(r@) =~= ids_of(before).push(jobs@[i as int].id));
        }
        i += 1;
    }
    assert(jobs@.take(jobs.len() as int) =~= jobs@);
    r
}

/// Whether a job in this state can be moved to another printer: one that
/// has not started or ended printing for good.
pub open spec fn can_move(state: JobState) -> bool {
    state is Pending || state is Held || state is Processing || state is Stopped
}

pub fn job_can_move(state: &JobState) -> (r: bool)
    ensures
        r == can_move(*state),
{
    matches!(state, JobState::Pending | JobState::Held | JobState::Processing | JobState::Stopped)
}

/// The message naming a job state.
pub open spec fn job_state_message_spec(state: JobState) -> Seq<char> {
    match state {
        JobState::Pending => "job-pending"@,
        JobState::Processing => "job-printing"@,
        JobState::Completed => "job-completed"@,
        JobState::Canceled => "job-canceled"@,
        JobState::Aborted | JobState::Failed => "job-error"@,
        JobState::Held => "job-paused"@,
        JobState::Stopped => "job-stopped"@,
        JobState::Unknown => "job-unknown"@,
    }
}

/// The job state messages are distinct texts.
proof fn job_state_messages_distinct()
    ensures
        "job-pending"@ != "job-printing"@,
        "job-pending"@ != "job-completed"@,
        "job-pending"@ != "job-canceled"@,
        "job-pending"@ != "job-error"@,
        "job-pending"@ != "job-paused"@,
        "job-pending"@ != "job-stopped"@,
        "job-pending"@ != "job-unknown"@,
        "job-printing"@ != "job-completed"@,
        "job-printing"@ != "job-canceled"@,
        "job-printing"@ != "job-error"@,
        "job-printing"@ != "job-paused"@,
        "job-printing"@ != "job-stopped"@,
        "job-printing"@ != "job-unknown"@,
        "job-completed"@ != "job-canceled"@,
        "job-completed"@ != "job-error"@,
        "job-completed"@ != "job-paused"@,
        "job-completed"@ != "job-stopped"@,
        "job-completed"@ != "job-unknown"@,
        "job-canceled"@ != "job-error"@,
        "job-canceled"@ != "job-paused"@,
        "job-canceled"@ != "job-stopped"@,
        "job-canceled"@ != "job-unknown"@,
        "job-error"@ != "job-paused"@,
        "job-error"@ != "job-stopped"@,
        "job-error"@ != "job-unknown"@,
        "job-paused"@ != "job-stopped"@,
        "job-paused"@ != "job-unknown"@,
        "job-stopped"@ != "job-unknown"@,
{
    reveal_strlit("job-pending");
    reveal_strlit("job-printing");
    reveal_strlit("job-completed");
    reveal_strlit("job-canceled");
    reveal_strlit("job-error");
    reveal_strlit("job-paused");
    reveal_strlit("job-stopped");
    reveal_strlit("job-unknown");
    assert("job-pending"@[5] != "job-printing"@[5]);
    assert("job-pending"@[4] != "job-completed"@[4]);
    assert("job-pending"@[4] != "job-canceled"@[4]);
    assert("job-pending"@[4] != "job-error"@[4]);
    assert("job-pending"@[5] != "job-paused"@[5]);
    assert("job-pending"@[4] != "job-stopped"@[4]);
    assert("job-pending"@[4] != "job-unknown"@[4]);
    assert("job-printing"@[4] != "job-completed"@[4]);
    assert("job-printing"@[4] != "job-canceled"@[4]);
    assert("job-printing"@[4] != "job-error"@[4]);
    assert("job-printing"@[5] != "job-paused"@[5]);
    assert("job-printing"@[4] != "job-stopped"@[4]);
    assert("job-printing"@[4] != "job-unknown"@[4]);
    assert("job-completed"@[5] != "job-canceled"@[5]);
    assert("job-completed"@[4] != "job-error"@[4]);
    assert("job-completed"@[4] != "job-paused"@[4]);
    assert("job-completed"@[4] != "job-stopped"@[4]);
    assert("job-completed"@[4] != "job-unknown"@[4]);
    assert("job-canceled"@[4] != "job-error"@[4]);
    assert("job-canceled"@[4] != "job-paused"@[4]);
    assert("job-canceled"@[4] != "job-stopped"@[4]);
    assert("job-canceled"@[4] != "job-unknown"@[4]);
    assert("job-error"@[4] != "job-paused"@[4]);
    assert("job-error"@[4] != "job-stopped"@[4]);
    assert("job-error"@[4] != "job-unknown"@[4]);
    assert("job-paused"@[4] != "job-stopped"@[4]);
    assert("job-paused"@[4] != "job-unknown"@[4]);
    assert("job-stopped"@[4] != "job-unknown"@[4]);
}

/// Each job state is named by its own message (an aborted and a failed job
/// both read as an error), so no two other states read alike.
pub proof fn each_job_state_has_its_own_name(state: JobState)
    ensures
        job_state_message_spec(state) == "job-pending"@ <==> (state is Pending),
        job_state_message_spec(state) == "job-printing"@ <==> (state is Processing),
        job_state_message_spec(state) == "job-completed"@ <==> (state is Completed),
        job_state_message_spec(state) == "job-canceled"@ <==> (state is Canceled),
        job_state_message_spec(state) == "job-error"@ <==> (state is Aborted || state is Failed),
        job_state_message_spec(state) == "job-paused"@ <==> (state is Held),
        job_state_message_spec(state) == "job-stopped"@ <==> (state is Stopped),
        job_state_message_spec(state) == "job-unknown"@ <==> (state is Unknown),
{
    job_state_messages_distinct();
}

/// What can be done to a job agrees with whether it has ended: a job can
/// be paused only while waiting or printing, resumed only while held or
/// stopped, never both, and a job that can be paused, resumed or moved can
/// still be cancelled.
pub proof fn job_actions_agree_with_state(state: JobState)
    ensures
        !(JobAction::Pause.available_for(state) && JobAction::Resume.available_for(state)),
        JobAction::Pause.available_for(state) ==> JobAction::Cancel.available_for(state),
        JobAction::Resume.available_for(state) ==> JobAction::Cancel.available_for(state),
        can_move(state) ==> JobAction::Cancel.available_for(state),
        !JobAction::Cancel.available_for(state) <==> (state is Completed || state is Canceled || state is Aborted
            || state is Failed),
{
}

pub fn job_state_message(state: &JobState) -> (r: &'static str)
    ensures
        r@ == job_state_message_spec(*state),
{
    match state {
        JobState::Pending => "job-pending",
        JobState::Processing => "job-printing",
        JobState::Completed => "job-completed",
        JobState::Canceled => "job-canceled",
        JobState::Aborted | JobState::Failed => "job-error",
        JobState::Held => "job-paused",
        JobState::Stopped => "job-stopped",
        JobState::Unknown => "job-unknown",
    }
}

/// The localized name of a job state.
pub fn job_state_label(state: &JobState, loader: &FluentLanguageLoader) -> String {
    localized(loader, job_state_message(state))
}

/// How long ago something happened, in words: the message and the count it
/// is given. Under a minute is "just now"; then whole minutes, hours and days.
/// A time in the future counts as just now.
pub open spec fn relative_time_spec(now: i64, timestamp: i64) -> (Seq<char>, Option<i64>) {
    let elapsed = now - timestamp;
    if elapsed < 60 {
        ("job-time-just-now"@, None)
    } else if elapsed < 3600 {
        ("job-time-minutes"@, Some((elapsed / 60) as i64))
    } else if elapsed < 86_400 {
        ("job-time-hours"@, Some((elapsed / 3600) as i64))
    } else {
        ("job-time-days"@, Some((clamp_i64(elapsed) / 86_400) as i64))
    }
}

/// The elapsed time as `i64::saturating_sub` leaves it.
pub open spec fn clamp_i64(v: int) -> int {
    if v > i64::MAX {
        i64::MAX as int
    } else if v < i64::MIN {
        i64::MIN as int
    } else {
        v
    }
}

/// The time since something happened reads in whole units, rounded down:
/// under a minute as just now, then whole minutes under an hour, whole
/// hours under a day, and whole days after that (the elapsed time held to
/// the range of `i64`).
pub proof fn relative_time_counts_whole_units(now: i64, timestamp: i64)
    ensures
        ({
            let elapsed = now - timestamp;
            let (message, count) = relative_time_spec(now, timestamp);
            &&& elapsed < 60 ==> message == "job-time-just-now"@ && count is None
            &&& 60 <= elapsed < 3600 ==> (message == "job-time-minutes"@ && count is Some && count->0 * 60 <= elapsed
                < (count->0 + 1) * 60 && 1 <= count->0 < 60)
            &&& 3600 <= elapsed < 86_400 ==> (message == "job-time-hours"@ && count is Some && count->0 * 3600
                <= elapsed < (count->0 + 1) * 3600 && 1 <= count->0 < 24)
            &&& 86_400 <= elapsed ==> (message == "job-time-days"@ && count is Some && count->0 * 86_400
                <= clamp_i64(elapsed) < (count->0 + 1) * 86_400 && count->0 >= 1)
        }),
{
    let elapsed = now - timestamp;
    if 60 <= elapsed < 3600 {
        let c = elapsed / 60;
        assert(c * 60 <= elapsed < (c + 1) * 60) by (nonlinear_arith)
            requires
                c == elapsed / 60,
                elapsed >= 0,
        ;
    } else if 3600 <= elapsed < 86_400 {
        let c = elapsed / 3600;
        assert(c * 3600 <= elapsed < (c + 1) * 3600) by (nonlinear_arith)
            requires
                c == elapsed / 3600,
                elapsed >= 0,
        ;
    } else if 86_400 <= elapsed {
        let e = clamp_i64(elapsed);
        let c = e / 86_400;
        assert(c * 86_400 <= e < (c + 1) * 86_400) by (nonlinear_arith)
            requires
                c == e / 86_400,
                e >= 0,
        ;
    }
}

/// The message and count for the time between `timestamp` and `now`.
pub fn relative_time_message(now: i64, timestamp: i64) -> (r: (&'static str, Option<i64>))
    ensures
        (r.0@, r.1) == relative_time_spec(now, timestamp),
{
    let wide: i128 = now as i128 - timestamp as i128;
    let elapsed: i64 = if wide > i64::MAX as i128 {
        i64::MAX
    } else if wide < i64::MIN as i128 {
        i64::MIN
    } else {
        wide as i64
    };
    if elapsed < 60 {
        ("job-time-just-now", None)
    } else if elapsed < 3600 {
        ("job-time-minutes", Some(elapsed / 60))
    } else if elapsed < 86_400 {
        ("job-time-hours", Some(elapsed / 3_600))
    } else {
        ("job-time-days", Some(elapsed / 86_400))
    }
}

/// How long ago something happened, localized.
pub fn relative_time_from(now: i64, timestamp: i64, loader: &FluentLanguageLoader) -> String {
    let (message, count) = relative_time_message(now, timestamp);
    match count {
        Some(count) => localized_count(loader, message, count),
        None => localized(loader, message),
    }
}

} // verus!
