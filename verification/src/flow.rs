//! The decisions a window makes around a board: what to show when it binds to
//! a board, what to do after removing a session, how to recover a session
//! whose thread was lost, and how to keep a board in step with its threads.

use vstd::prelude::*;
use vstd::string::StringExecFns;
use crate::model::{Board, BoardSession};
use crate::state::find_thread;
use crate::status::BoardSessionMoveDirection;
use crate::sync::{
    BoardStatusUpdate, ServerNotification, ThreadEvent, board_status_update_for_event_msg,
    board_status_update_for_notification, event_status_update, notification_status_update,
    should_mark_thread_seen_after_event, should_mark_thread_seen_after_notification,
};
use crate::text::text_eq;
use crate::thread_id::{ThreadId, uuid_text};
use crate::ui::{
    board_session_move_edge_label, default_board_session_title, default_title_text, optional_str,
    optional_text, recovered_board_session_title, recovered_title_text,
    replacement_thread_id_after_removal,
};

verus! {

/// What binding a window to a board leads to.
#[derive(Debug, Clone, Copy, PartialEq, Eq, Structural)]
pub enum BindAction {
    /// The board is gone: the window is left unbound.
    BoardMissing,
    /// The board has no session yet: one is started.
    CreateSession,
    /// The window switches to this thread of the board.
    SwitchTo(ThreadId),
}

/// What binding a window to `board`, which has `sessions`, leads to: the
/// board's selected thread if it is still on the board, else its first session.
pub fn bind_board_action(board: Option<&Board>, sessions: &[BoardSession]) -> (r: BindAction)
    ensures
        board is None ==> r == BindAction::BoardMissing,
        board is Some && sessions@.len() == 0 ==> r == BindAction::CreateSession,
        board is Some && sessions@.len() > 0 ==> r == BindAction::SwitchTo(
            match board->0.last_selected_thread_id {
                Some(t) => if find_thread(sessions@, t) is Some {
                    t
                } else {
                    sessions@[0].thread_id
                },
                None => sessions@[0].thread_id,
            },
        ),
{
    let b = match board {
        Some(b) => b,
        None => {
            return BindAction::BoardMissing;
        },
    };
    if sessions.len() == 0 {
        return BindAction::CreateSession;
    }
    if let Some(t) = b.last_selected_thread_id {
        if crate::ui::board_session_picker_selected_idx(sessions, Some(t), None).is_some() {
            return BindAction::SwitchTo(t);
        }
    }
    BindAction::SwitchTo(sessions[0].thread_id)
}

/// What a window does after binding to a board, once a switch it tried is over.
#[derive(Debug, Clone, Copy, PartialEq, Eq, Structural)]
pub struct BindFollowUp {
    /// The window stays bound to the board.
    pub bound: bool,
    /// A new session is started in the board.
    pub create_session: bool,
    /// The board's session picker opens.
    pub open_session_picker: bool,
}

/// What follows binding with `action`: a missing board leaves the window
/// unbound and nothing more happens; an empty board gets a new session; a
/// switch that failed (`switched` false) gets a new session too. The session
/// picker opens afterwards when `open_sessions_after` asks for it.
pub fn bind_board_follow_up(action: BindAction, switched: bool, open_sessions_after: bool) -> (r: BindFollowUp)
    ensures
        r == (match action {
            BindAction::BoardMissing => BindFollowUp {
                bound: false,
                create_session: false,
                open_session_picker: false,
            },
            BindAction::CreateSession => BindFollowUp {
                bound: true,
                create_session: true,
                open_session_picker: open_sessions_after,
            },
            BindAction::SwitchTo(_) => BindFollowUp {
                bound: true,
                create_session: !switched,
                open_session_picker: open_sessions_after,
            },
        }),
{
    match action {
        BindAction::BoardMissing => BindFollowUp { bound: false, create_session: false, open_session_picker: false },
        BindAction::CreateSession => BindFollowUp {
            bound: true,
            create_session: true,
            open_session_picker: open_sessions_after,
        },
        BindAction::SwitchTo(_) => BindFollowUp {
            bound: true,
            create_session: !switched,
            open_session_picker: open_sessions_after,
        },
    }
}

/// What opening a board's session picker does with the sessions it loaded.
#[derive(Debug, Clone, Copy, PartialEq, Eq, Structural)]
pub enum SessionPickerStep {
    /// The picker shows the sessions.
    Show,
    /// The board is empty: a session is started, and the sessions are loaded again.
    CreateSessionFirst,
    /// The board is still empty after a session was started: nothing is shown.
    Nothing,
}

/// What opening the session picker does with `sessions`, loaded before a
/// session was started (`after_creating` false) or after.
pub fn session_picker_step(sessions: &[BoardSession], after_creating: bool) -> (r: SessionPickerStep)
    ensures
        r == if sessions@.len() > 0 {
            SessionPickerStep::Show
        } else if !after_creating {
            SessionPickerStep::CreateSessionFirst
        } else {
            SessionPickerStep::Nothing
        },
{
    if sessions.len() > 0 {
        SessionPickerStep::Show
    } else if !after_creating {
        SessionPickerStep::CreateSessionFirst
    } else {
        SessionPickerStep::Nothing
    }
}

/// What follows the removal of a session from the board a window is bound to.
#[derive(Debug, Clone, Copy, PartialEq, Eq, Structural)]
pub enum RemovalFollowUp {
    /// The removed session was not shown: the session picker opens again.
    OpenPicker,
    /// The window switches to this thread, then the picker opens.
    SwitchTo(ThreadId),
    /// The board is empty: a session is started, then the picker opens.
    CreateSession,
}

/// What follows the removal of a session that stood at `removed_session_idx`:
/// when it was shown, the window moves to the session that took its place,
/// or starts one if none is left.
pub fn removal_follow_up(
    was_current: bool,
    removed_session_idx: Option<usize>,
    remaining_sessions: &[BoardSession],
) -> (r: RemovalFollowUp)
    ensures
        !was_current ==> r == RemovalFollowUp::OpenPicker,
        was_current && remaining_sessions@.len() == 0 ==> r == RemovalFollowUp::CreateSession,
        was_current && remaining_sessions@.len() > 0 ==> {
            let wanted = match removed_session_idx {
                Some(i) => i as int,
                None => 0,
            };
            let k = if wanted < remaining_sessions@.len() - 1 {
                wanted
            } else {
                remaining_sessions@.len() - 1
            };
            r == RemovalFollowUp::SwitchTo(remaining_sessions@[k].thread_id)
        },
{
    if !was_current {
        return RemovalFollowUp::OpenPicker;
    }
    match replacement_thread_id_after_removal(removed_session_idx, remaining_sessions) {
        Some(t) => RemovalFollowUp::SwitchTo(t),
        None => RemovalFollowUp::CreateSession,
    }
}

/// The title under which the session of the lost thread `missing_thread_id`
/// is handed over to the new thread; none when the board does not hold it.
pub fn recovery_title(
    sessions: &[BoardSession],
    missing_thread_id: ThreadId,
    new_thread_name: Option<String>,
    new_thread_id: ThreadId,
) -> (r: Option<String>)
    ensures
        r is None <==> find_thread(sessions@, missing_thread_id) is None,
        r matches Some(title) ==> title@ == recovered_title_text(
            sessions@[find_thread(sessions@, missing_thread_id)->0].title_snapshot@,
            missing_thread_id,
            optional_text(new_thread_name),
            new_thread_id,
        ),
{
    proof {
        crate::state::lemma_find_thread(sessions@, missing_thread_id);
    }
    let idx = crate::ui::board_session_picker_selected_idx(sessions, Some(missing_thread_id), None);
    match idx {
        Some(k) => Some(
            recovered_board_session_title(
                sessions[k].title_snapshot.as_str(),
                missing_thread_id,
                new_thread_name,
                new_thread_id,
            ),
        ),
        None => None,
    }
}

/// Whether deleting a board leaves the window unbound: the deletion happened
/// and the window was bound to that board.
pub fn unbinds_after_delete(bound_board_id: Option<&str>, deleted_board_id: &str, deleted: bool) -> (r: bool)
    ensures
        r == (deleted && optional_str(bound_board_id) == Some(deleted_board_id@)),
{
    match bound_board_id {
        Some(b) => deleted && text_eq(b, deleted_board_id),
        None => false,
    }
}

/// The message shown when a session cannot move further in `direction`.
pub fn move_blocked_message(direction: BoardSessionMoveDirection) -> (r: String)
    ensures
        r@ == "Session is already at the "@ + (match direction {
            BoardSessionMoveDirection::Up => "top"@,
            BoardSessionMoveDirection::Down => "bottom"@,
        }) + " of the board."@,
{
    let mut r = String::from_str("Session is already at the ");
    r.append(board_session_move_edge_label(direction));
    r.append(" of the board.");
    r
}

/// How a window gets hold of a board session's thread.
#[derive(Debug, Clone, Copy, PartialEq, Eq, Structural)]
pub enum ThreadAvailability {
    /// The window already follows the thread.
    Ready,
    /// The thread has no saved transcript: the session is recovered with a new thread.
    Recover,
    /// The thread is resumed from its saved transcript.
    Resume,
}

/// How a window gets hold of a thread: a thread it follows is ready, one
/// without a saved transcript is recovered, any other is resumed.
pub fn thread_availability(followed: bool, transcript_found: bool) -> (r: ThreadAvailability)
    ensures
        r == if followed {
            ThreadAvailability::Ready
        } else if !transcript_found {
            ThreadAvailability::Recover
        } else {
            ThreadAvailability::Resume
        },
{
    if followed {
        ThreadAvailability::Ready
    } else if !transcript_found {
        ThreadAvailability::Recover
    } else {
        ThreadAvailability::Resume
    }
}

/// The thread a window follows after resuming `requested` gave back the
/// thread `resumed`: the requested one when they agree, else none, with the
/// message that says so.
pub fn resumed_thread(requested: ThreadId, resumed: ThreadId) -> (r: Result<ThreadId, String>)
    ensures
        resumed == requested ==> r == Ok::<ThreadId, String>(requested),
        resumed != requested ==> (r matches Err(msg) && msg@ == "Resumed board session id mismatch: expected "@
            + uuid_text(requested.uuid) + ", got "@ + uuid_text(resumed.uuid) + "."@),
{
    if resumed == requested {
        return Ok(requested);
    }
    let mut msg = String::from_str("Resumed board session id mismatch: expected ");
    let expected = requested.to_text();
    msg.append(expected.as_str());
    msg.append(", got ");
    let got = resumed.to_text();
    msg.append(got.as_str());
    msg.append(".");
    Err(msg)
}

/// What a window does to boards after something happens on one of its threads.
#[derive(Debug, Clone, PartialEq, Eq)]
pub struct BoardSyncPlan {
    /// The title the thread's sessions take, on every board.
    pub title_snapshot: Option<String>,
    /// What happens to the status of the thread's sessions, on every board.
    pub status_update: Option<BoardStatusUpdate>,
    /// The board on which the thread's session is marked seen.
    pub mark_seen_board_id: Option<String>,
}

/// Whether `plan` marks the session seen on the board the window is bound to
/// exactly when `should_mark` holds and the window is bound.
pub open spec fn plan_marks_seen(plan: BoardSyncPlan, should_mark: bool, bound: Option<Seq<char>>) -> bool {
    if should_mark && bound is Some {
        plan.mark_seen_board_id matches Some(b) && b@ == bound->0
    } else {
        plan.mark_seen_board_id is None
    }
}

fn seen_board(should_mark: bool, bound_board_id: Option<&str>) -> (r: Option<String>)
    ensures
        if should_mark && bound_board_id is Some {
            r matches Some(b) && b@ == bound_board_id->0@
        } else {
            r is None
        },
{
    if should_mark {
        match bound_board_id {
            Some(b) => Some(b.to_owned()),
            None => None,
        }
    } else {
        None
    }
}

/// What a window bound to `bound_board_id` and showing `current_thread_id`
/// does to boards after the event `event` on `thread_id`: a renamed thread's
/// sessions take the new default title, the status changes as the event
/// says, and a turn that ended on the shown thread marks it seen on the bound board.
pub fn board_sync_plan_for_thread_event(
    current_thread_id: Option<ThreadId>,
    thread_id: ThreadId,
    event: &ThreadEvent,
    bound_board_id: Option<&str>,
) -> (r: BoardSyncPlan)
    ensures
        match *event {
            ThreadEvent::ThreadNameUpdated { thread_name } => r.title_snapshot matches Some(t) && t@
                == default_title_text(optional_text(thread_name), thread_id),
            _ => r.title_snapshot is None,
        },
        r.status_update == event_status_update(*event),
        plan_marks_seen(
            r,
            current_thread_id == Some(thread_id) && (*event is TurnComplete || *event is TurnAborted),
            optional_str(bound_board_id),
        ),
{
    let title_snapshot = match event {
        ThreadEvent::ThreadNameUpdated { thread_name } => Some(
            default_board_session_title(thread_name.clone(), thread_id),
        ),
        _ => None,
    };
    let status_update = board_status_update_for_event_msg(event);
    let should_mark = should_mark_thread_seen_after_event(current_thread_id, thread_id, event);
    BoardSyncPlan {
        title_snapshot,
        status_update,
        mark_seen_board_id: seen_board(should_mark, bound_board_id),
    }
}

/// What a window does to boards after the app server's notification about
/// `thread_id`; as for thread events, with the notification's own statuses.
pub fn board_sync_plan_for_notification(
    current_thread_id: Option<ThreadId>,
    thread_id: ThreadId,
    notification: &ServerNotification,
    bound_board_id: Option<&str>,
) -> (r: BoardSyncPlan)
    ensures
        match *notification {
            ServerNotification::ThreadNameUpdated { thread_name } => r.title_snapshot matches Some(t)
                && t@ == default_title_text(optional_text(thread_name), thread_id),
            _ => r.title_snapshot is None,
        },
        r.status_update == notification_status_update(*notification),
        plan_marks_seen(
            r,
            current_thread_id == Some(thread_id) && *notification is TurnCompleted,
            optional_str(bound_board_id),
        ),
{
    let title_snapshot = match notification {
        ServerNotification::ThreadNameUpdated { thread_name } => Some(
            default_board_session_title(thread_name.clone(), thread_id),
        ),
        _ => None,
    };
    let status_update = board_status_update_for_notification(notification);
    let should_mark = should_mark_thread_seen_after_notification(
        current_thread_id,
        thread_id,
        notification,
    );
    BoardSyncPlan {
        title_snapshot,
        status_update,
        mark_seen_board_id: seen_board(should_mark, bound_board_id),
    }
}

} // verus!
