use printers::entry::PrinterEntry;
use printers::queue::{JobAction, JobId, JobInfo, JobOperation, JobState};
use printers::queue_page::{update, QueueAction, QueueMenu, QueueMessage, QueuePage};
use printers::queue_selection::JobSelection;

fn printer(id: &str) -> PrinterEntry {
    PrinterEntry::new(id, id, false, Vec::new())
}

fn jobs() -> Vec<JobInfo> {
    vec![
        JobInfo { id: 1, state: JobState::Processing },
        JobInfo { id: 2, state: JobState::Held },
        JobInfo { id: 3, state: JobState::Completed },
    ]
}

fn page() -> QueuePage {
    QueuePage {
        printer: None,
        available_printers: Vec::new(),
        jobs: Vec::new(),
        loading: false,
        load_failed: false,
        action_error: None,
        selection: JobSelection { selected: Vec::new(), anchor: None },
        show_completed: false,
        shift: false,
        control: false,
        operation_in_flight: false,
        menu: None,
    }
}

fn loaded() -> QueuePage {
    let mut page = page();
    update(
        &mut page,
        QueueMessage::LoadPrinter { printer: printer("office"), available_printers: vec![printer("office"), printer("studio")] },
    );
    update(&mut page, QueueMessage::JobsLoaded { printer_id: "office".into(), result: Ok(jobs()) });
    page
}

#[test]
fn loading_a_printer_reads_its_active_jobs() {
    let mut page = page();
    page.show_completed = true;
    let action = update(&mut page, QueueMessage::LoadPrinter { printer: printer("office"), available_printers: Vec::new() });
    assert!(matches!(action, QueueAction::LoadJobs { ref printer_id, all: false } if printer_id == "office"));
    assert!(page.loading);
    assert!(!page.show_completed);
}

#[test]
fn jobs_read_for_another_printer_are_ignored() {
    let mut page = loaded();
    let action = update(&mut page, QueueMessage::JobsLoaded { printer_id: "studio".into(), result: Ok(Vec::new()) });
    assert!(matches!(action, QueueAction::Nothing));
    assert_eq!(page.jobs.len(), 3);
}

#[test]
fn jobs_read_report_the_active_count_and_keep_queued_selections() {
    let mut page = loaded();
    page.selection = JobSelection { selected: vec![JobId(2), JobId(9)], anchor: Some(JobId(2)) };
    page.show_completed = true;
    let action = update(&mut page, QueueMessage::JobsLoaded { printer_id: "office".into(), result: Ok(jobs()) });
    assert!(matches!(action, QueueAction::ReportActiveJobs { ref printer_id, count: 2 } if printer_id == "office"));
    assert_eq!(page.selection.selected, vec![JobId(2)]);
    assert!(!page.loading);
    let action = update(&mut page, QueueMessage::JobsLoaded { printer_id: "office".into(), result: Err("no".into()) });
    assert!(matches!(action, QueueAction::Nothing));
    assert!(page.load_failed);
}

#[test]
fn one_operation_runs_at_a_time() {
    let mut page = loaded();
    let hold = JobOperation::single(JobAction::Pause, JobId(1));
    let action = update(&mut page, QueueMessage::RunJobAction(hold.clone()));
    assert!(matches!(action, QueueAction::RunOperation { ref printer_id, .. } if printer_id == "office"));
    assert!(page.operation_in_flight);
    assert!(matches!(update(&mut page, QueueMessage::RunJobAction(hold)), QueueAction::Nothing));
    assert!(matches!(update(&mut page, QueueMessage::PrintTestPage), QueueAction::Nothing));
    let action = update(&mut page, QueueMessage::JobActionFinished { printer_id: "office".into(), result: Err("refused".into()) });
    assert!(matches!(action, QueueAction::LoadJobs { all: false, .. }));
    assert!(!page.operation_in_flight);
    assert_eq!(page.action_error.as_deref(), Some("refused"));
}

#[test]
fn an_operation_the_jobs_do_not_allow_is_not_sent() {
    let mut page = loaded();
    let resume_running = JobOperation::single(JobAction::Resume, JobId(1));
    assert!(matches!(update(&mut page, QueueMessage::RunJobAction(resume_running)), QueueAction::Nothing));
    assert!(!page.operation_in_flight);
}

#[test]
fn jobs_move_only_to_another_offered_printer() {
    let mut page = loaded();
    let to_self = QueueMessage::MoveJobs { destination_id: "office".into(), job_ids: vec![JobId(1)] };
    assert!(matches!(update(&mut page, to_self), QueueAction::Nothing));
    let unknown = QueueMessage::MoveJobs { destination_id: "annex".into(), job_ids: vec![JobId(1)] };
    assert!(matches!(update(&mut page, unknown), QueueAction::Nothing));
    let none = QueueMessage::MoveJobs { destination_id: "studio".into(), job_ids: Vec::new() };
    assert!(matches!(update(&mut page, none), QueueAction::Nothing));
    let ok = QueueMessage::MoveJobs { destination_id: "studio".into(), job_ids: vec![JobId(1)] };
    assert!(matches!(
        update(&mut page, ok),
        QueueAction::MoveJobs { ref source_id, ref destination_id, .. } if source_id == "office" && destination_id == "studio"
    ));
}

#[test]
fn a_failed_test_page_is_reported_without_reading_again() {
    let mut page = loaded();
    assert!(matches!(update(&mut page, QueueMessage::PrintTestPage), QueueAction::PrintTestPage(ref id) if id == "office"));
    let action = update(&mut page, QueueMessage::TestPageFinished { printer_id: "office".into(), result: Err("busy".into()) });
    assert!(matches!(action, QueueAction::Nothing));
    assert_eq!(page.action_error.as_deref(), Some("busy"));
    update(&mut page, QueueMessage::PrintTestPage);
    let action = update(&mut page, QueueMessage::TestPageFinished { printer_id: "office".into(), result: Ok(7) });
    assert!(matches!(action, QueueAction::LoadJobs { .. }));
    assert_eq!(page.action_error, None);
}

#[test]
fn menus_and_selection_follow_the_clicks() {
    let mut page = loaded();
    update(&mut page, QueueMessage::SelectJob(JobId(1)));
    update(&mut page, QueueMessage::ModifiersChanged { shift: true, control: false });
    update(&mut page, QueueMessage::SelectJob(JobId(3)));
    let mut ids: Vec<i32> = page.selection.selected.iter().map(|j| j.0).collect();
    ids.sort();
    assert_eq!(ids, vec![1, 2, 3]);
    update(&mut page, QueueMessage::OpenJobMenu(JobId(2)));
    assert!(matches!(page.menu, Some(QueueMenu::SelectedJobs)));
    assert_eq!(page.selection.selected.len(), 3);
    update(&mut page, QueueMessage::OpenWholeQueueMenu);
    assert!(matches!(page.menu, Some(QueueMenu::Whole)));
    assert!(page.selection.selected.is_empty());
    update(&mut page, QueueMessage::OpenMoveToPrinter(Vec::new()));
    assert!(matches!(page.menu, Some(QueueMenu::Whole)));
    update(&mut page, QueueMessage::OpenMoveToPrinter(vec![JobId(1)]));
    assert!(matches!(page.menu, Some(QueueMenu::MoveToPrinter(_))));
    update(&mut page, QueueMessage::CloseMenu);
    assert!(page.menu.is_none());
}

#[test]
fn showing_ended_jobs_clears_the_selection_and_reads_every_job() {
    let mut page = loaded();
    update(&mut page, QueueMessage::SelectJob(JobId(1)));
    let action = update(&mut page, QueueMessage::ToggleCompleted);
    assert!(matches!(action, QueueAction::LoadJobs { all: true, .. }));
    assert!(page.selection.selected.is_empty());
    assert!(matches!(
        update(&mut page, QueueMessage::OpenPrinterWebPage("https://printer.local/".into())),
        QueueAction::OpenWebPage(ref u) if u == "https://printer.local/"
    ));
}
