//! The asset fetch task: where an asset comes from and goes to, and the
//! decisions of one task from its creation to its terminal outcome.

use crate::error::FetchError;
use crate::text::{lowercase, to_lowercase};
use vstd::prelude::*;
use vstd::string::StringExecFns;

verus! {

/// The terminal outcome of one fetch task.
#[derive(Clone, Copy, Debug, PartialEq, Eq, Structural)]
pub enum FetchOutcome {
    Success,
    Skipped,
    Failed(FetchError),
}

/// Where a task stands.
#[derive(Clone, Copy, Debug, PartialEq, Eq, Structural)]
pub enum TaskState {
    /// Nothing has been done yet.
    Created,
    /// The task waits for a permit.
    AwaitingPermit,
    /// The request is under way.
    AwaitingResponse,
    /// A success status came back and the body is being read.
    AwaitingBody,
    /// The body is being written to the destination file.
    AwaitingWrite,
    /// The task is over.
    Done(FetchOutcome),
}

/// What happened outside since the last action.
#[derive(Clone, Copy, Debug, PartialEq, Eq, Structural)]
pub enum TaskEvent {
    /// The destination was looked up.
    Probed { exists: bool },
    PermitAcquired,
    SendFailed,
    Responded { status: u16 },
    BodyFailed,
    BodyRead,
    WriteFailed,
    Written,
}

/// What is to be done next outside.
#[derive(Clone, Copy, Debug, PartialEq, Eq, Structural)]
pub enum TaskAction {
    AcquirePermit,
    Send,
    ReadBody,
    Write,
    /// Report the outcome, and give the permit back if one is held.
    Finish { outcome: FetchOutcome, release_permit: bool },
}

/// The state after an event, and the action that it calls for.
#[derive(Clone, Copy, Debug, PartialEq, Eq, Structural)]
pub struct Transition {
    pub next: TaskState,
    pub action: TaskAction,
}

/// Whether `status` is a success status.
pub open spec fn success_status(status: u16) -> bool {
    200 <= status < 300
}

/// Whether a task in `state` holds a permit.
pub open spec fn holds_permit(state: TaskState) -> bool {
    state is AwaitingResponse || state is AwaitingBody || state is AwaitingWrite
}

/// The transition that ends a task in `state` with `outcome`.
pub open spec fn finish(state: TaskState, outcome: FetchOutcome) -> Transition {
    Transition {
        next: TaskState::Done(outcome),
        action: TaskAction::Finish { outcome, release_permit: holds_permit(state) },
    }
}

/// The transition of a task in `state` on `event`; `None` where the event
/// does not belong to the state.
pub open spec fn transition(force: bool, state: TaskState, event: TaskEvent) -> Option<Transition> {
    match (state, event) {
        (TaskState::Created, TaskEvent::Probed { exists }) => if !force && exists {
            Some(finish(state, FetchOutcome::Skipped))
        } else {
            Some(Transition { next: TaskState::AwaitingPermit, action: TaskAction::AcquirePermit })
        },
        (TaskState::AwaitingPermit, TaskEvent::PermitAcquired) => Some(
            Transition { next: TaskState::AwaitingResponse, action: TaskAction::Send },
        ),
        (TaskState::AwaitingResponse, TaskEvent::SendFailed) => Some(
            finish(state, FetchOutcome::Failed(FetchError::Transport)),
        ),
        (TaskState::AwaitingResponse, TaskEvent::Responded { status }) => if success_status(
            status,
        ) {
            Some(Transition { next: TaskState::AwaitingBody, action: TaskAction::ReadBody })
        } else {
            Some(finish(state, FetchOutcome::Failed(FetchError::HttpStatus(status))))
        },
        (TaskState::AwaitingBody, TaskEvent::BodyFailed) => Some(
            finish(state, FetchOutcome::Failed(FetchError::Transport)),
        ),
        (TaskState::AwaitingBody, TaskEvent::BodyRead) => Some(
            Transition { next: TaskState::AwaitingWrite, action: TaskAction::Write },
        ),
        (TaskState::AwaitingWrite, TaskEvent::WriteFailed) => Some(
            finish(state, FetchOutcome::Failed(FetchError::Io)),
        ),
        (TaskState::AwaitingWrite, TaskEvent::Written) => Some(
            finish(state, FetchOutcome::Success),
        ),
        _ => None,
    }
}

/// The state of a task that started in `state` and saw `events` in order.
/// An event that does not belong to the state it meets changes nothing.
pub open spec fn run(force: bool, state: TaskState, events: Seq<TaskEvent>) -> TaskState
    decreases events.len(),
{
    if events.len() == 0 {
        state
    } else {
        let before = run(force, state, events.drop_last());
        match transition(force, before, events.last()) {
            Some(t) => t.next,
            None => before,
        }
    }
}

/// How many requests a task that started in `state` issued while it saw
/// `events`.
pub open spec fn requests(force: bool, state: TaskState, events: Seq<TaskEvent>) -> nat
    decreases events.len(),
{
    if events.len() == 0 {
        0
    } else {
        let before = run(force, state, events.drop_last());
        let earlier = requests(force, state, events.drop_last());
        match transition(force, before, events.last()) {
            Some(t) => if t.action is Send {
                earlier + 1
            } else {
                earlier
            },
            None => earlier,
        }
    }
}

/// The address of the asset of `symbol`.
pub open spec fn logo_url_of(symbol: Seq<char>) -> Seq<char> {
    "https://logos.stockanalysis.com/"@ + lowercase(symbol) + ".svg"@
}

/// The name of the file that holds the asset of `symbol`.
pub open spec fn logo_file_name_of(symbol: Seq<char>) -> Seq<char> {
    symbol + ".svg"@
}

/// A task that is over stays over: no event moves it.
pub proof fn lemma_done_is_terminal(force: bool, outcome: FetchOutcome, event: TaskEvent)
    ensures
        transition(force, TaskState::Done(outcome), event) is None,
{
}

/// A permit is taken only when one is acquired, is kept until the task is
/// over, and is given back with the action that ends the task, whatever the
/// outcome.
pub proof fn lemma_permit_discipline(force: bool, state: TaskState, event: TaskEvent)
    requires
        transition(force, state, event) is Some,
    ensures
        ({
            let t = transition(force, state, event)->0;
            &&& holds_permit(t.next) ==> holds_permit(state) || event is PermitAcquired
            &&& holds_permit(state) && !holds_permit(t.next) ==> t.next is Done
            &&& t.next is Done ==> t.action == (TaskAction::Finish {
                outcome: t.next->Done_0,
                release_permit: holds_permit(state),
            })
            &&& t.action is Send ==> holds_permit(t.next)
        }),
{
}

/// Without force, a task whose destination exists ends as skipped, whatever
/// events follow, and issues no request.
pub proof fn lemma_existing_asset_is_skipped(events: Seq<TaskEvent>)
    requires
        events.len() > 0,
        events[0] == (TaskEvent::Probed { exists: true }),
    ensures
        run(false, TaskState::Created, events) == TaskState::Done(FetchOutcome::Skipped),
        requests(false, TaskState::Created, events) == 0,
    decreases events.len(),
{
    if events.len() == 1 {
        assert(events.drop_last().len() == 0);
        assert(run(false, TaskState::Created, events.drop_last()) == TaskState::Created);
        assert(requests(false, TaskState::Created, events.drop_last()) == 0);
    } else {
        lemma_existing_asset_is_skipped(events.drop_last());
    }
}

/// With force, no task ends as skipped, whether or not its destination
/// exists, and the first action after the probe is to acquire a permit.
pub proof fn lemma_forced_never_skipped(events: Seq<TaskEvent>, exists: bool)
    ensures
        run(true, TaskState::Created, events) != TaskState::Done(FetchOutcome::Skipped),
        transition(true, TaskState::Created, TaskEvent::Probed { exists }) == Some(
            Transition { next: TaskState::AwaitingPermit, action: TaskAction::AcquirePermit },
        ),
    decreases events.len(),
{
    if events.len() > 0 {
        lemma_forced_never_skipped(events.drop_last(), exists);
    }
}

/// Whether `status` is a success status.
pub fn is_success(status: u16) -> (r: bool)
    ensures
        r == success_status(status),
{
    200 <= status && status < 300
}

/// The transition of a task in `state` on `event`.
pub fn step(force: bool, state: TaskState, event: TaskEvent) -> (r: Option<Transition>)
    ensures
        r == transition(force, state, event),
{
    let held = match state {
        TaskState::AwaitingResponse | TaskState::AwaitingBody | TaskState::AwaitingWrite => true,
        _ => false,
    };
    let outcome = match (state, event) {
        (TaskState::Created, TaskEvent::Probed { exists }) => {
            if !force && exists {
                FetchOutcome::Skipped
            } else {
                return Some(
                    Transition {
                        next: TaskState::AwaitingPermit,
                        action: TaskAction::AcquirePermit,
                    },
                );
            }
        },
        (TaskState::AwaitingPermit, TaskEvent::PermitAcquired) => {
            return Some(Transition { next: TaskState::AwaitingResponse, action: TaskAction::Send });
        },
        (TaskState::AwaitingResponse, TaskEvent::SendFailed) => FetchOutcome::Failed(
            FetchError::Transport,
        ),
        (TaskState::AwaitingResponse, TaskEvent::Responded { status }) => {
            if is_success(status) {
                return Some(
                    Transition { next: TaskState::AwaitingBody, action: TaskAction::ReadBody },
                );
            }
            FetchOutcome::Failed(FetchError::HttpStatus(status))
        },
        (TaskState::AwaitingBody, TaskEvent::BodyFailed) => FetchOutcome::Failed(
            FetchError::Transport,
        ),
        (TaskState::AwaitingBody, TaskEvent::BodyRead) => {
            return Some(Transition { next: TaskState::AwaitingWrite, action: TaskAction::Write });
        },
        (TaskState::AwaitingWrite, TaskEvent::WriteFailed) => FetchOutcome::Failed(FetchError::Io),
        (TaskState::AwaitingWrite, TaskEvent::Written) => FetchOutcome::Success,
        _ => {
            return None;
        },
    };
    Some(
        Transition {
            next: TaskState::Done(outcome),
            action: TaskAction::Finish { outcome, release_permit: held },
        },
    )
}

/// The address from which the asset of `symbol` is fetched.
pub fn logo_url(symbol: &str) -> (r: String)
    ensures
        r@ == logo_url_of(symbol@),
{
    let mut url = "https://logos.stockanalysis.com/".to_owned();
    let lowered = to_lowercase(symbol);
    url.append(lowered.as_str());
    url.append(".svg");
    url
}

/// The name, inside the output directory, of the file of `symbol`.
pub fn logo_file_name(symbol: &str) -> (r: String)
    ensures
        r@ == logo_file_name_of(symbol@),
{
    let mut name = symbol.to_owned();
    name.append(".svg");
    name
}

} // verus!
