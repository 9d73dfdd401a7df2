//! How events of a thread, requests to the user and the user's own actions
//! change the status of the thread's board sessions.

use vstd::prelude::*;
use crate::status::BoardSessionStatus;
use crate::thread_id::ThreadId;

verus! {

/// What a board does with a thread's session when something happens on the thread.
#[derive(Debug, Clone, Copy, PartialEq, Eq, Structural)]
pub enum BoardStatusUpdate {
    /// The session takes this status.
    SetStatus(BoardSessionStatus),
    /// The session records one more event and takes this status.
    RecordActivity(BoardSessionStatus),
}

/// The kind of an event that a thread emits, as far as boards care.
#[derive(Debug, Clone, PartialEq, Eq)]
pub enum ThreadEvent {
    TurnStarted,
    ExecApprovalRequest,
    ApplyPatchApprovalRequest,
    ElicitationRequest,
    RequestPermissions,
    RequestUserInput,
    Error,
    StreamError,
    TurnComplete,
    TurnAborted,
    /// The thread was renamed; `None` when its name was cleared.
    ThreadNameUpdated { thread_name: Option<String> },
    Other,
}

/// The kind of an operation that the user sends to a thread, as far as boards care.
#[derive(Debug, Clone, Copy, PartialEq, Eq, Structural)]
pub enum OutboundOp {
    UserTurn,
    ExecApproval,
    PatchApproval,
    ResolveElicitation,
    UserInputAnswer,
    RequestPermissionsResponse,
    Other,
}

/// How a turn ended, as an app server reports it.
#[derive(Debug, Clone, Copy, PartialEq, Eq, Structural)]
pub enum TurnStatus {
    Completed,
    Interrupted,
    Failed,
    InProgress,
}

/// The kind of a notification that an app server sends about a thread, as far as boards care.
#[derive(Debug, Clone, PartialEq, Eq)]
pub enum ServerNotification {
    TurnStarted,
    /// An error; the server may try again by itself.
    Error { will_retry: bool },
    TurnCompleted { status: TurnStatus },
    /// The thread was renamed; `None` when its name was cleared.
    ThreadNameUpdated { thread_name: Option<String> },
    Other,
}

/// The kind of a request that an app server sends to the user, as far as boards care.
#[derive(Debug, Clone, Copy, PartialEq, Eq, Structural)]
pub enum ServerRequest {
    CommandExecutionRequestApproval,
    FileChangeRequestApproval,
    McpServerElicitationRequest,
    PermissionsRequestApproval,
    Other,
}

/// What a thread event does to the thread's board sessions.
pub open spec fn event_status_update(msg: ThreadEvent) -> Option<BoardStatusUpdate> {
    match msg {
        ThreadEvent::TurnStarted => Some(BoardStatusUpdate::SetStatus(BoardSessionStatus::Running)),
        ThreadEvent::ExecApprovalRequest | ThreadEvent::ApplyPatchApprovalRequest
        | ThreadEvent::ElicitationRequest | ThreadEvent::RequestPermissions
        | ThreadEvent::RequestUserInput => Some(
            BoardStatusUpdate::SetStatus(BoardSessionStatus::WaitingApproval),
        ),
        ThreadEvent::Error | ThreadEvent::StreamError => Some(
            BoardStatusUpdate::SetStatus(BoardSessionStatus::Errored),
        ),
        ThreadEvent::TurnComplete | ThreadEvent::TurnAborted => Some(
            BoardStatusUpdate::RecordActivity(BoardSessionStatus::NeedsAttention),
        ),
        _ => None,
    }
}

/// Whether a user's operation answers or starts work, so that the thread runs.
pub open spec fn op_sets_running(op: OutboundOp) -> bool {
    !(op is Other)
}

/// What an app server request does to the thread's board sessions.
pub open spec fn request_status(request: ServerRequest) -> Option<BoardSessionStatus> {
    if request is Other {
        None
    } else {
        Some(BoardSessionStatus::WaitingApproval)
    }
}

/// What a user's operation does to the thread's board sessions.
pub open spec fn op_status(op: OutboundOp) -> Option<BoardSessionStatus> {
    if op_sets_running(op) {
        Some(BoardSessionStatus::Running)
    } else {
        None
    }
}

/// What an app server notification does to the thread's board sessions.
pub open spec fn notification_status_update(n: ServerNotification) -> Option<BoardStatusUpdate> {
    match n {
        ServerNotification::TurnStarted => Some(BoardStatusUpdate::SetStatus(BoardSessionStatus::Running)),
        ServerNotification::Error { will_retry } => if !will_retry {
            Some(BoardStatusUpdate::SetStatus(BoardSessionStatus::Errored))
        } else {
            None
        },
        ServerNotification::TurnCompleted { status } => match status {
            TurnStatus::Completed | TurnStatus::Interrupted => Some(
                BoardStatusUpdate::RecordActivity(BoardSessionStatus::NeedsAttention),
            ),
            TurnStatus::Failed => Some(BoardStatusUpdate::SetStatus(BoardSessionStatus::Errored)),
            TurnStatus::InProgress => None,
        },
        _ => None,
    }
}

/// What a thread event does to the thread's board sessions: a started turn
/// runs, a request for approval or input waits, an error errs, and a turn
/// that completed or was aborted records activity that needs attention.
pub fn board_status_update_for_event_msg(msg: &ThreadEvent) -> (r: Option<BoardStatusUpdate>)
    ensures
        r == event_status_update(*msg),
{
    match msg {
        ThreadEvent::TurnStarted => Some(BoardStatusUpdate::SetStatus(BoardSessionStatus::Running)),
        ThreadEvent::ExecApprovalRequest | ThreadEvent::ApplyPatchApprovalRequest
        | ThreadEvent::ElicitationRequest | ThreadEvent::RequestPermissions
        | ThreadEvent::RequestUserInput => Some(
            BoardStatusUpdate::SetStatus(BoardSessionStatus::WaitingApproval),
        ),
        ThreadEvent::Error | ThreadEvent::StreamError => Some(
            BoardStatusUpdate::SetStatus(BoardSessionStatus::Errored),
        ),
        ThreadEvent::TurnComplete | ThreadEvent::TurnAborted => Some(
            BoardStatusUpdate::RecordActivity(BoardSessionStatus::NeedsAttention),
        ),
        _ => None,
    }
}

/// A user's turn, approval, answer or granted permission sets the thread running.
pub fn board_status_update_for_outbound_op(op: &OutboundOp) -> (r: Option<BoardSessionStatus>)
    ensures
        r == op_status(*op),
{
    match op {
        OutboundOp::UserTurn | OutboundOp::ExecApproval | OutboundOp::PatchApproval
        | OutboundOp::ResolveElicitation | OutboundOp::UserInputAnswer
        | OutboundOp::RequestPermissionsResponse => Some(BoardSessionStatus::Running),
        _ => None,
    }
}

/// Whether an event on `thread_id` marks it seen: a turn that completed or was
/// aborted on the thread shown right now.
pub fn should_mark_thread_seen_after_event(
    current_thread_id: Option<ThreadId>,
    thread_id: ThreadId,
    msg: &ThreadEvent,
) -> (r: bool)
    ensures
        r == (current_thread_id == Some(thread_id) && (*msg is TurnComplete || *msg is TurnAborted)),
{
    current_thread_id == Some(thread_id) && matches!(msg, ThreadEvent::TurnComplete | ThreadEvent::TurnAborted)
}

/// What an app server notification does to the thread's board sessions: a
/// started turn runs, an error the server will not retry errs, a completed or
/// interrupted turn records activity that needs attention, a failed turn errs.
pub fn board_status_update_for_notification(notification: &ServerNotification) -> (r: Option<
    BoardStatusUpdate,
>)
    ensures
        r == notification_status_update(*notification),
{
    match notification {
        ServerNotification::TurnStarted => Some(BoardStatusUpdate::SetStatus(BoardSessionStatus::Running)),
        ServerNotification::Error { will_retry } => {
            if !*will_retry {
                Some(BoardStatusUpdate::SetStatus(BoardSessionStatus::Errored))
            } else {
                None
            }
        },
        ServerNotification::TurnCompleted { status } => match status {
            TurnStatus::Completed | TurnStatus::Interrupted => Some(
                BoardStatusUpdate::RecordActivity(BoardSessionStatus::NeedsAttention),
            ),
            TurnStatus::Failed => Some(BoardStatusUpdate::SetStatus(BoardSessionStatus::Errored)),
            TurnStatus::InProgress => None,
        },
        _ => None,
    }
}

/// A request for approval of a command, a file change, an elicitation or
/// permissions makes the thread wait.
pub fn board_status_update_for_request(request: &ServerRequest) -> (r: Option<BoardSessionStatus>)
    ensures
        r == request_status(*request),
{
    match request {
        ServerRequest::CommandExecutionRequestApproval | ServerRequest::FileChangeRequestApproval
        | ServerRequest::McpServerElicitationRequest | ServerRequest::PermissionsRequestApproval => {
            Some(BoardSessionStatus::WaitingApproval)
        },
        _ => None,
    }
}

/// Whether a notification about `thread_id` marks it seen: a completed turn,
/// however it ended, on the thread shown right now.
pub fn should_mark_thread_seen_after_notification(
    current_thread_id: Option<ThreadId>,
    thread_id: ThreadId,
    notification: &ServerNotification,
) -> (r: bool)
    ensures
        r == (current_thread_id == Some(thread_id) && *notification is TurnCompleted),
{
    current_thread_id == Some(thread_id) && matches!(notification, ServerNotification::TurnCompleted { .. })
}

/// Every request to the user makes the thread wait, and every answer, turn,
/// approval or grant of the user sets it running again.
pub proof fn law_request_then_answer_runs_again(request: ServerRequest, op: OutboundOp)
    requires
        !(request is Other),
        !(op is Other),
    ensures
        request_status(request) == Some(BoardSessionStatus::WaitingApproval),
        op_status(op) == Some(BoardSessionStatus::Running),
{
}

/// Every event that asks the user something makes the thread wait; every
/// error but one the app server retries makes it err.
pub proof fn law_waiting_and_errors(msg: ThreadEvent, will_retry: bool)
    ensures
        (msg is ExecApprovalRequest || msg is ApplyPatchApprovalRequest || msg is ElicitationRequest
            || msg is RequestPermissions || msg is RequestUserInput) ==> event_status_update(msg)
            == Some(BoardStatusUpdate::SetStatus(BoardSessionStatus::WaitingApproval)),
        (msg is Error || msg is StreamError) ==> event_status_update(msg) == Some(
            BoardStatusUpdate::SetStatus(BoardSessionStatus::Errored),
        ),
        notification_status_update(ServerNotification::Error { will_retry }) == if will_retry {
            None
        } else {
            Some(BoardStatusUpdate::SetStatus(BoardSessionStatus::Errored))
        },
{
}

/// Only a completed or aborted turn records activity; every other event that
/// changes a session's status only sets it.
pub proof fn law_only_finished_turns_record_activity(msg: ThreadEvent)
    ensures
        event_status_update(msg) matches Some(BoardStatusUpdate::RecordActivity(s)) ==> (msg is TurnComplete
            || msg is TurnAborted) && s == BoardSessionStatus::NeedsAttention,
{
}

/// A turn that finished normally or was interrupted always records activity
/// and leaves its sessions needing attention, whether the app server or the
/// thread itself reports it; a failed turn errs, and a turn still in
/// progress changes nothing.
pub proof fn law_finished_turns_need_attention(status: TurnStatus)
    ensures
        status == TurnStatus::Completed || status == TurnStatus::Interrupted ==> notification_status_update(
            ServerNotification::TurnCompleted { status },
        ) == Some(BoardStatusUpdate::RecordActivity(BoardSessionStatus::NeedsAttention)),
        status == TurnStatus::Failed ==> notification_status_update(ServerNotification::TurnCompleted { status })
            == Some(BoardStatusUpdate::SetStatus(BoardSessionStatus::Errored)),
        status == TurnStatus::InProgress ==> notification_status_update(
            ServerNotification::TurnCompleted { status },
        ) is None,
        event_status_update(ThreadEvent::TurnComplete) == Some(
            BoardStatusUpdate::RecordActivity(BoardSessionStatus::NeedsAttention),
        ),
        event_status_update(ThreadEvent::TurnAborted) == Some(
            BoardStatusUpdate::RecordActivity(BoardSessionStatus::NeedsAttention),
        ),
{
}

/// A turn that starts sets the thread's sessions running, whether the app
/// server or the thread itself reports it; renames and other events leave
/// the status alone.
pub proof fn law_started_turns_run(thread_name: Option<String>)
    ensures
        notification_status_update(ServerNotification::TurnStarted) == Some(
            BoardStatusUpdate::SetStatus(BoardSessionStatus::Running),
        ),
        event_status_update(ThreadEvent::TurnStarted) == Some(
            BoardStatusUpdate::SetStatus(BoardSessionStatus::Running),
        ),
        notification_status_update(ServerNotification::ThreadNameUpdated { thread_name }) is None,
        notification_status_update(ServerNotification::Other) is None,
        event_status_update(ThreadEvent::ThreadNameUpdated { thread_name }) is None,
        event_status_update(ThreadEvent::Other) is None,
{
}

} // verus!
