use stock_logos::error::FetchError;
use stock_logos::fetch::{
    is_success, logo_file_name, logo_url, step, FetchOutcome, TaskAction, TaskEvent, TaskState,
    Transition,
};

fn drive(force: bool, events: &[TaskEvent]) -> (TaskState, Vec<TaskAction>) {
    let mut state = TaskState::Created;
    let mut actions = Vec::new();
    for &event in events {
        if let Some(t) = step(force, state, event) {
            state = t.next;
            actions.push(t.action);
        }
    }
    (state, actions)
}

#[test]
fn url_has_the_lowercased_symbol() {
    assert_eq!(logo_url("AAPL"), "https://logos.stockanalysis.com/aapl.svg");
    assert_eq!(logo_url("Brk9"), "https://logos.stockanalysis.com/brk9.svg");
}

#[test]
fn file_name_keeps_the_symbol() {
    assert_eq!(logo_file_name("AAPL"), "AAPL.svg");
}

#[test]
fn success_is_any_2xx_status() {
    assert!(!is_success(199));
    assert!(is_success(200));
    assert!(is_success(204));
    assert!(is_success(299));
    assert!(!is_success(300));
    assert!(!is_success(404));
}

#[test]
fn existing_asset_is_skipped_without_permit_or_request() {
    let t = step(false, TaskState::Created, TaskEvent::Probed { exists: true }).unwrap();
    assert_eq!(t.next, TaskState::Done(FetchOutcome::Skipped));
    assert_eq!(
        t.action,
        TaskAction::Finish { outcome: FetchOutcome::Skipped, release_permit: false }
    );
}

#[test]
fn second_run_issues_no_request_for_an_existing_asset() {
    let events = [
        TaskEvent::Probed { exists: true },
        TaskEvent::PermitAcquired,
        TaskEvent::Responded { status: 200 },
    ];
    let (state, actions) = drive(false, &events);
    assert_eq!(state, TaskState::Done(FetchOutcome::Skipped));
    assert!(!actions.contains(&TaskAction::Send));
}

#[test]
fn missing_asset_is_fetched() {
    let t = step(false, TaskState::Created, TaskEvent::Probed { exists: false }).unwrap();
    assert_eq!(
        t,
        Transition { next: TaskState::AwaitingPermit, action: TaskAction::AcquirePermit }
    );
}

#[test]
fn force_refetches_an_existing_asset() {
    let events = [
        TaskEvent::Probed { exists: true },
        TaskEvent::PermitAcquired,
        TaskEvent::Responded { status: 200 },
        TaskEvent::BodyRead,
        TaskEvent::Written,
    ];
    let (state, actions) = drive(true, &events);
    assert_eq!(state, TaskState::Done(FetchOutcome::Success));
    assert_eq!(
        actions,
        vec![
            TaskAction::AcquirePermit,
            TaskAction::Send,
            TaskAction::ReadBody,
            TaskAction::Write,
            TaskAction::Finish { outcome: FetchOutcome::Success, release_permit: true },
        ]
    );
}

#[test]
fn transport_error_fails_the_task_and_frees_the_permit() {
    let t = step(false, TaskState::AwaitingResponse, TaskEvent::SendFailed).unwrap();
    let outcome = FetchOutcome::Failed(FetchError::Transport);
    assert_eq!(t.next, TaskState::Done(outcome));
    assert_eq!(t.action, TaskAction::Finish { outcome, release_permit: true });
}

#[test]
fn non_success_status_fails_with_its_code() {
    let t = step(false, TaskState::AwaitingResponse, TaskEvent::Responded { status: 404 }).unwrap();
    let outcome = FetchOutcome::Failed(FetchError::HttpStatus(404));
    assert_eq!(t.next, TaskState::Done(outcome));
    assert_eq!(t.action, TaskAction::Finish { outcome, release_permit: true });
}

#[test]
fn unreadable_body_is_a_transport_error() {
    let t = step(false, TaskState::AwaitingBody, TaskEvent::BodyFailed).unwrap();
    assert_eq!(t.next, TaskState::Done(FetchOutcome::Failed(FetchError::Transport)));
}

#[test]
fn failed_write_is_an_io_error() {
    let t = step(true, TaskState::AwaitingWrite, TaskEvent::WriteFailed).unwrap();
    let outcome = FetchOutcome::Failed(FetchError::Io);
    assert_eq!(t.next, TaskState::Done(outcome));
    assert_eq!(t.action, TaskAction::Finish { outcome, release_permit: true });
}

#[test]
fn event_that_does_not_belong_is_refused() {
    assert_eq!(step(false, TaskState::Created, TaskEvent::Written), None);
    assert_eq!(step(false, TaskState::AwaitingPermit, TaskEvent::SendFailed), None);
    assert_eq!(step(true, TaskState::AwaitingWrite, TaskEvent::BodyRead), None);
}

#[test]
fn finished_task_accepts_no_event() {
    let done = TaskState::Done(FetchOutcome::Success);
    assert_eq!(step(false, done, TaskEvent::Probed { exists: false }), None);
    assert_eq!(step(true, done, TaskEvent::PermitAcquired), None);
}
