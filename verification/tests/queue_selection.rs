use printers::queue::{JobId, JobInfo, JobState};
use printers::queue_selection::{
    active_job_count, clear_selection, open_job_menu, retain_queued, select_job, JobSelection,
};

fn jobs() -> Vec<JobInfo> {
    vec![
        JobInfo { id: 10, state: JobState::Processing },
        JobInfo { id: 11, state: JobState::Pending },
        JobInfo { id: 12, state: JobState::Completed },
        JobInfo { id: 13, state: JobState::Held },
    ]
}

fn selected(sel: &JobSelection) -> Vec<i32> {
    let mut ids: Vec<i32> = sel.selected.iter().map(|id| id.0).collect();
    ids.sort();
    ids.dedup();
    ids
}

fn empty() -> JobSelection {
    JobSelection { selected: Vec::new(), anchor: None }
}

#[test]
fn a_plain_click_selects_only_that_job() {
    let mut sel = empty();
    select_job(&mut sel, &jobs(), JobId(11), false, false);
    select_job(&mut sel, &jobs(), JobId(12), false, false);
    assert_eq!(selected(&sel), vec![12]);
    assert_eq!(sel.anchor, Some(JobId(12)));
}

#[test]
fn a_control_click_toggles_one_job() {
    let mut sel = empty();
    select_job(&mut sel, &jobs(), JobId(10), false, false);
    select_job(&mut sel, &jobs(), JobId(12), false, true);
    assert_eq!(selected(&sel), vec![10, 12]);
    select_job(&mut sel, &jobs(), JobId(10), false, true);
    assert_eq!(selected(&sel), vec![12]);
    assert_eq!(sel.anchor, Some(JobId(10)));
}

#[test]
fn a_shift_click_selects_the_span_from_the_anchor() {
    let mut sel = empty();
    select_job(&mut sel, &jobs(), JobId(13), false, false);
    select_job(&mut sel, &jobs(), JobId(11), true, false);
    assert_eq!(selected(&sel), vec![11, 12, 13]);
    assert_eq!(sel.anchor, Some(JobId(13)));

    let mut sel = empty();
    select_job(&mut sel, &jobs(), JobId(10), false, false);
    select_job(&mut sel, &jobs(), JobId(13), false, true);
    select_job(&mut sel, &jobs(), JobId(11), true, false);
    assert_eq!(selected(&sel), vec![11, 12, 13]);

    let mut sel = empty();
    select_job(&mut sel, &jobs(), JobId(10), false, false);
    select_job(&mut sel, &jobs(), JobId(13), false, true);
    select_job(&mut sel, &jobs(), JobId(12), true, true);
    assert_eq!(selected(&sel), vec![10, 12, 13]);
}

#[test]
fn a_shift_click_without_an_anchor_is_a_plain_click() {
    let mut sel = empty();
    select_job(&mut sel, &jobs(), JobId(12), true, false);
    assert_eq!(selected(&sel), vec![12]);
    assert_eq!(sel.anchor, Some(JobId(12)));
}

#[test]
fn a_shift_click_from_a_job_no_longer_queued_changes_nothing() {
    let mut sel = JobSelection { selected: vec![JobId(99)], anchor: Some(JobId(99)) };
    select_job(&mut sel, &jobs(), JobId(12), true, false);
    assert_eq!(selected(&sel), vec![99]);
    assert_eq!(sel.anchor, Some(JobId(99)));
}

#[test]
fn a_menu_on_a_selected_job_keeps_the_selection() {
    let mut sel = JobSelection { selected: vec![JobId(10), JobId(11)], anchor: Some(JobId(10)) };
    open_job_menu(&mut sel, JobId(11));
    assert_eq!(selected(&sel), vec![10, 11]);
    assert_eq!(sel.anchor, Some(JobId(10)));
    open_job_menu(&mut sel, JobId(13));
    assert_eq!(selected(&sel), vec![13]);
    assert_eq!(sel.anchor, Some(JobId(13)));
    clear_selection(&mut sel);
    assert!(sel.selected.is_empty());
    assert_eq!(sel.anchor, None);
}

#[test]
fn only_queued_jobs_stay_selected_after_a_read() {
    let mut sel = JobSelection { selected: vec![JobId(10), JobId(42), JobId(13)], anchor: Some(JobId(42)) };
    retain_queued(&mut sel, &jobs());
    assert_eq!(selected(&sel), vec![10, 13]);
    assert_eq!(sel.anchor, Some(JobId(42)));
}

#[test]
fn the_active_count_leaves_out_ended_jobs_only_when_they_are_shown() {
    assert_eq!(active_job_count(&jobs(), true), 3);
    assert_eq!(active_job_count(&jobs(), false), 4);
    assert_eq!(active_job_count(&Vec::new(), true), 0);
}

#[test]
fn two_control_clicks_on_one_job_leave_the_selection_as_it_was() {
    let mut sel = JobSelection { selected: vec![JobId(10), JobId(13)], anchor: Some(JobId(10)) };
    select_job(&mut sel, &jobs(), JobId(11), false, true);
    select_job(&mut sel, &jobs(), JobId(11), false, true);
    assert_eq!(selected(&sel), vec![10, 13]);
}
