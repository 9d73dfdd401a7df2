//! What the board pickers show: titles, labels, descriptions, the entries of
//! the pickers and which one is selected first.

use vstd::prelude::*;
use vstd::string::{StrSliceExecFns, StringExecFns};
use crate::model::{BoardOverview, BoardSession};
use crate::state::find_thread;
use crate::status::{BoardSessionMoveDirection, BoardSessionStatus};
use crate::text::{decimal_text, is_blank, is_blank_text, text_eq, usize_text};
use crate::thread_id::{ThreadId, uuid_text};

verus! {

/// The text of an optional text.
pub open spec fn optional_text(o: Option<String>) -> Option<Seq<char>> {
    match o {
        Some(s) => Some(s@),
        None => None,
    }
}

/// The first eight characters of a thread's identifier.
pub open spec fn short_thread_text(thread: ThreadId) -> Seq<char> {
    uuid_text(thread.uuid).subrange(0, 8)
}

/// The title of a session of `thread` named `name`: the name unless it is
/// missing or blank, else `Untitled ` and the start of the thread's identifier.
pub open spec fn default_title_text(name: Option<Seq<char>>, thread: ThreadId) -> Seq<char> {
    if name is Some && !is_blank_text(name->0) {
        name->0
    } else {
        "Untitled "@ + short_thread_text(thread)
    }
}

/// The title shown for a session: its title, or the default title of its
/// thread when the title is blank.
pub open spec fn session_title_text(session: BoardSession) -> Seq<char> {
    if is_blank_text(session.title_snapshot@) {
        default_title_text(None, session.thread_id)
    } else {
        session.title_snapshot@
    }
}

/// The title a recovered session takes: a blank title, or the default title of
/// the lost thread, gives way to the default title of the new thread; any
/// other title stays.
pub open spec fn recovered_title_text(
    current: Seq<char>,
    old_thread: ThreadId,
    new_name: Option<Seq<char>>,
    new_thread: ThreadId,
) -> Seq<char> {
    if is_blank_text(current) || current == default_title_text(None, old_thread) {
        default_title_text(new_name, new_thread)
    } else {
        current
    }
}

/// The label a status is shown with.
pub open spec fn status_label_text(status: BoardSessionStatus) -> Seq<char> {
    match status {
        BoardSessionStatus::Unknown => "unknown"@,
        BoardSessionStatus::Running => "running"@,
        BoardSessionStatus::NeedsAttention => "needs attention"@,
        BoardSessionStatus::Seen => "seen"@,
        BoardSessionStatus::WaitingApproval => "waiting approval"@,
        BoardSessionStatus::Errored => "errored"@,
    }
}

/// A session is titled by its thread's name when that name is given and not
/// blank, and otherwise `Untitled ` and the first eight characters of the
/// thread's identifier; the title shown for a session is its stored title
/// unless that is blank.
pub proof fn law_default_titles(name: Option<Seq<char>>, thread: ThreadId, session: BoardSession)
    ensures
        name is Some && !is_blank_text(name->0) ==> default_title_text(name, thread) == name->0,
        !(name is Some && !is_blank_text(name->0)) ==> default_title_text(name, thread) == "Untitled "@
            + uuid_text(thread.uuid).subrange(0, 8),
        !is_blank_text(session.title_snapshot@) ==> session_title_text(session) == session.title_snapshot@,
        is_blank_text(session.title_snapshot@) ==> session_title_text(session) == "Untitled "@ + uuid_text(
            session.thread_id.uuid,
        ).subrange(0, 8),
{
}

/// A recovered session keeps a title the user gave: one that is neither
/// blank nor the lost thread's default title (`Untitled ` and the start of its
/// identifier) stays, whatever the new thread is called. A blank or default
/// title takes the new thread's name when it has one that is not blank, and
/// otherwise `Untitled ` and the first eight characters of the new thread's
/// identifier.
pub proof fn law_recovery_keeps_user_titles(
    current: Seq<char>,
    old_thread: ThreadId,
    new_name: Option<Seq<char>>,
    new_thread: ThreadId,
)
    ensures
        !is_blank_text(current) && current != "Untitled "@ + uuid_text(old_thread.uuid).subrange(0, 8)
            ==> recovered_title_text(current, old_thread, new_name, new_thread) == current,
        (is_blank_text(current) || current == "Untitled "@ + uuid_text(old_thread.uuid).subrange(0, 8))
            ==> recovered_title_text(current, old_thread, new_name, new_thread) == if new_name is Some
            && !is_blank_text(new_name->0) {
            new_name->0
        } else {
            "Untitled "@ + uuid_text(new_thread.uuid).subrange(0, 8)
        },
{
}

/// Each status is shown with its own label, fixed once for all: `unknown`,
/// `running`, `needs attention`, `seen`, `waiting approval` and `errored`;
/// no two statuses share a label.
pub proof fn law_status_labels(a: BoardSessionStatus, b: BoardSessionStatus)
    ensures
        status_label_text(BoardSessionStatus::Unknown) == "unknown"@,
        status_label_text(BoardSessionStatus::Running) == "running"@,
        status_label_text(BoardSessionStatus::NeedsAttention) == "needs attention"@,
        status_label_text(BoardSessionStatus::Seen) == "seen"@,
        status_label_text(BoardSessionStatus::WaitingApproval) == "waiting approval"@,
        status_label_text(BoardSessionStatus::Errored) == "errored"@,
        a != b ==> status_label_text(a) != status_label_text(b),
{
    reveal_strlit("unknown");
    reveal_strlit("running");
    reveal_strlit("needs attention");
    reveal_strlit("seen");
    reveal_strlit("waiting approval");
    reveal_strlit("errored");
    // The six labels start with six different characters.
    assert(status_label_text(a)[0] == match a {
        BoardSessionStatus::Unknown => 'u',
        BoardSessionStatus::Running => 'r',
        BoardSessionStatus::NeedsAttention => 'n',
        BoardSessionStatus::Seen => 's',
        BoardSessionStatus::WaitingApproval => 'w',
        BoardSessionStatus::Errored => 'e',
    });
    assert(status_label_text(b)[0] == match b {
        BoardSessionStatus::Unknown => 'u',
        BoardSessionStatus::Running => 'r',
        BoardSessionStatus::NeedsAttention => 'n',
        BoardSessionStatus::Seen => 's',
        BoardSessionStatus::WaitingApproval => 'w',
        BoardSessionStatus::Errored => 'e',
    });
}

/// The line that describes a board in the board picker.
pub open spec fn overview_description_text(o: BoardOverview) -> Seq<char> {
    decimal_text(o.session_count as nat) + " sessions \u{b7} "@ + decimal_text(o.running_count as nat)
        + " running \u{b7} "@ + decimal_text(o.needs_attention_count as nat) + " needs attention"@
}

/// The title of a session of `thread_id` named `thread_name`: the name unless
/// it is missing or blank, else `Untitled ` and the first eight characters of
/// the thread's identifier.
pub fn default_board_session_title(thread_name: Option<String>, thread_id: ThreadId) -> (r: String)
    ensures
        r@ == default_title_text(optional_text(thread_name), thread_id),
{
    if let Some(name) = thread_name {
        if !is_blank(name.as_str()) {
            return name;
        }
    }
    let text = thread_id.to_text();
    let short = text.as_str().substring_char(0, 8);
    let mut r = String::from_str("Untitled ");
    r.append(short);
    r
}

/// The title shown for a session.
pub fn board_session_title(session: &BoardSession) -> (r: String)
    ensures
        r@ == session_title_text(*session),
{
    if is_blank(session.title_snapshot.as_str()) {
        default_board_session_title(None, session.thread_id)
    } else {
        session.title_snapshot.clone()
    }
}

/// The title a session takes when its lost thread `old_thread_id` is replaced
/// by the new thread `new_thread_id` named `new_thread_name`.
pub fn recovered_board_session_title(
    current_title: &str,
    old_thread_id: ThreadId,
    new_thread_name: Option<String>,
    new_thread_id: ThreadId,
) -> (r: String)
    ensures
        r@ == recovered_title_text(
            current_title@,
            old_thread_id,
            optional_text(new_thread_name),
            new_thread_id,
        ),
{
    let old_default_title = default_board_session_title(None, old_thread_id);
    if is_blank(current_title) || text_eq(current_title, old_default_title.as_str()) {
        return default_board_session_title(new_thread_name, new_thread_id);
    }
    current_title.to_owned()
}

/// The label a status is shown with.
pub fn board_session_status_label(status: BoardSessionStatus) -> (r: &'static str)
    ensures
        r@ == status_label_text(status),
{
    match status {
        BoardSessionStatus::Unknown => "unknown",
        BoardSessionStatus::Running => "running",
        BoardSessionStatus::NeedsAttention => "needs attention",
        BoardSessionStatus::Seen => "seen",
        BoardSessionStatus::WaitingApproval => "waiting approval",
        BoardSessionStatus::Errored => "errored",
    }
}

/// The line that describes a session in the session picker: its status.
pub fn board_session_description(session: &BoardSession) -> (r: String)
    ensures
        r@ == status_label_text(session.status),
{
    board_session_status_label(session.status).to_owned()
}

/// The line that describes a board in the board picker: how many sessions it
/// has, how many run and how many need attention.
pub fn board_overview_description(board: &BoardOverview) -> (r: String)
    ensures
        r@ == overview_description_text(*board),
{
    let mut r = usize_text(board.session_count);
    r.append(" sessions \u{b7} ");
    let running = usize_text(board.running_count);
    r.append(running.as_str());
    r.append(" running \u{b7} ");
    let attention = usize_text(board.needs_attention_count);
    r.append(attention.as_str());
    r.append(" needs attention");
    r
}

/// The end of the board that a session cannot move past in `direction`.
pub fn board_session_move_edge_label(direction: BoardSessionMoveDirection) -> (r: &'static str)
    ensures
        r@ == (match direction {
            BoardSessionMoveDirection::Up => "top"@,
            BoardSessionMoveDirection::Down => "bottom"@,
        }),
{
    match direction {
        BoardSessionMoveDirection::Up => "top",
        BoardSessionMoveDirection::Down => "bottom",
    }
}

/// The first place in `sessions` of the session of `thread_id`.
fn session_position(sessions: &[BoardSession], thread_id: ThreadId) -> (r: Option<usize>)
    ensures
        r is None <==> find_thread(sessions@, thread_id) is None,
        r matches Some(k) ==> find_thread(sessions@, thread_id) == Some(k as int),
{
    proof {
        crate::state::lemma_find_thread(sessions@, thread_id);
    }
    let mut k: usize = 0;
    while k < sessions.len()
        invariant
            k <= sessions@.len(),
            forall|j: int| 0 <= j < k ==> (#[trigger] sessions@[j]).thread_id != thread_id,
            match find_thread(sessions@, thread_id) {
                Some(m) => 0 <= m < sessions@.len() && sessions@[m].thread_id == thread_id && forall|j: int|
                    0 <= j < m ==> (#[trigger] sessions@[j]).thread_id != thread_id,
                None => forall|j: int| 0 <= j < sessions@.len() ==> (#[trigger] sessions@[j]).thread_id != thread_id,
            },
        decreases sessions@.len() - k,
    {
        if sessions[k].thread_id == thread_id {
            return Some(k);
        }
        k = k + 1;
    }
    None
}

/// The session the session picker selects first: that of the preferred
/// thread if one is given, else that of the current thread, if the board has it.
pub fn board_session_picker_selected_idx(
    sessions: &[BoardSession],
    preferred_thread_id: Option<ThreadId>,
    current_thread_id: Option<ThreadId>,
) -> (r: Option<usize>)
    ensures
        ({
            let wanted = if preferred_thread_id is Some {
                preferred_thread_id
            } else {
                current_thread_id
            };
            &&& r is Some <==> wanted is Some && find_thread(sessions@, wanted->0) is Some
            &&& r matches Some(k) ==> find_thread(sessions@, wanted->0) == Some(k as int)
        }),
{
    let wanted = match preferred_thread_id {
        Some(t) => Some(t),
        None => current_thread_id,
    };
    match wanted {
        Some(t) => session_position(sessions, t),
        None => None,
    }
}

/// The thread to show after the current session was removed: the one that
/// took its place in the list (or the last one, if it was last), or the first
/// one when its place is unknown; none when the board is empty.
pub fn replacement_thread_id_after_removal(
    removed_session_idx: Option<usize>,
    remaining_sessions: &[BoardSession],
) -> (r: Option<ThreadId>)
    ensures
        remaining_sessions@.len() == 0 ==> r is None,
        remaining_sessions@.len() > 0 ==> {
            let wanted = match removed_session_idx {
                Some(i) => i as int,
                None => 0,
            };
            let k = if wanted < remaining_sessions@.len() - 1 {
                wanted
            } else {
                remaining_sessions@.len() - 1
            };
            r == Some(remaining_sessions@[k].thread_id)
        },
{
    if remaining_sessions.len() == 0 {
        return None;
    }
    let last = remaining_sessions.len() - 1;
    let wanted = match removed_session_idx {
        Some(i) => i,
        None => 0,
    };
    let k = if wanted < last {
        wanted
    } else {
        last
    };
    Some(remaining_sessions[k].thread_id)
}

/// A key shown in a hint line.
#[derive(Debug, Clone, Copy, PartialEq, Eq, Structural)]
pub enum HintKey {
    Enter,
    Char(char),
    ShiftUp,
    ShiftDown,
}

/// What a picker or a prompt asks the window to do.
#[derive(Debug, Clone, PartialEq, Eq)]
pub enum BoardUiAction {
    SwitchBoardSession { board_id: String, thread_id: ThreadId },
    BindBoard { board_id: String, open_sessions_after: bool },
    CreateBoundBoardSession,
    OpenCreateBoardPrompt,
    OpenRenameBoardPrompt { board_id: String, current_name: String },
    OpenDeleteBoardPrompt { board_id: String, board_name: String },
    OpenRenameBoardSessionPrompt { board_id: String, thread_id: ThreadId, current_name: String },
    OpenRemoveBoardSessionPrompt { board_id: String, thread_id: ThreadId, title: String },
    MoveBoardSession { board_id: String, thread_id: ThreadId, direction: BoardSessionMoveDirection },
    DeleteBoard { board_id: String },
    RemoveBoardSession { board_id: String, thread_id: ThreadId },
}

/// A `BoardUiAction` with its texts taken as character sequences.
pub enum BoardUiActionView {
    SwitchBoardSession { board_id: Seq<char>, thread_id: ThreadId },
    BindBoard { board_id: Seq<char>, open_sessions_after: bool },
    CreateBoundBoardSession,
    OpenCreateBoardPrompt,
    OpenRenameBoardPrompt { board_id: Seq<char>, current_name: Seq<char> },
    OpenDeleteBoardPrompt { board_id: Seq<char>, board_name: Seq<char> },
    OpenRenameBoardSessionPrompt { board_id: Seq<char>, thread_id: ThreadId, current_name: Seq<char> },
    OpenRemoveBoardSessionPrompt { board_id: Seq<char>, thread_id: ThreadId, title: Seq<char> },
    MoveBoardSession { board_id: Seq<char>, thread_id: ThreadId, direction: BoardSessionMoveDirection },
    DeleteBoard { board_id: Seq<char> },
    RemoveBoardSession { board_id: Seq<char>, thread_id: ThreadId },
}

impl View for BoardUiAction {
    type V = BoardUiActionView;

    open spec fn view(&self) -> BoardUiActionView {
        match self {
            BoardUiAction::SwitchBoardSession { board_id, thread_id } => BoardUiActionView::SwitchBoardSession {
                board_id: board_id@,
                thread_id: *thread_id,
            },
            BoardUiAction::BindBoard { board_id, open_sessions_after } => BoardUiActionView::BindBoard {
                board_id: board_id@,
                open_sessions_after: *open_sessions_after,
            },
            BoardUiAction::CreateBoundBoardSession => BoardUiActionView::CreateBoundBoardSession,
            BoardUiAction::OpenCreateBoardPrompt => BoardUiActionView::OpenCreateBoardPrompt,
            BoardUiAction::OpenRenameBoardPrompt { board_id, current_name } => BoardUiActionView::OpenRenameBoardPrompt {
                board_id: board_id@,
                current_name: current_name@,
            },
            BoardUiAction::OpenDeleteBoardPrompt { board_id, board_name } => BoardUiActionView::OpenDeleteBoardPrompt {
                board_id: board_id@,
                board_name: board_name@,
            },
            BoardUiAction::OpenRenameBoardSessionPrompt { board_id, thread_id, current_name } => BoardUiActionView::OpenRenameBoardSessionPrompt {
                board_id: board_id@,
                thread_id: *thread_id,
                current_name: current_name@,
            },
            BoardUiAction::OpenRemoveBoardSessionPrompt { board_id, thread_id, title } => BoardUiActionView::OpenRemoveBoardSessionPrompt {
                board_id: board_id@,
                thread_id: *thread_id,
                title: title@,
            },
            BoardUiAction::MoveBoardSession { board_id, thread_id, direction } => BoardUiActionView::MoveBoardSession {
                board_id: board_id@,
                thread_id: *thread_id,
                direction: *direction,
            },
            BoardUiAction::DeleteBoard { board_id } => BoardUiActionView::DeleteBoard { board_id: board_id@ },
            BoardUiAction::RemoveBoardSession { board_id, thread_id } => BoardUiActionView::RemoveBoardSession {
                board_id: board_id@,
                thread_id: *thread_id,
            },
        }
    }
}

/// The view of an optional action.
pub open spec fn action_view(a: Option<BoardUiAction>) -> Option<BoardUiActionView> {
    match a {
        Some(x) => Some(x@),
        None => None,
    }
}

/// The identifier of the board picker's view.
pub open spec fn board_picker_view_id() -> Seq<char> {
    "kb-board-picker"@
}

/// The identifier of the session picker's view.
pub open spec fn board_session_picker_view_id() -> Seq<char> {
    "kb-board-session-picker"@
}

/// One entry of a picker.
#[derive(Debug, Clone, PartialEq, Eq)]
pub struct PickerItem {
    pub name: String,
    pub description: String,
    /// Whether the entry is the one this window is on.
    pub is_current: bool,
    /// The text that searching in the picker matches.
    pub search_value: String,
    /// What choosing the entry (enter) asks for.
    pub action: BoardUiAction,
    /// Whether choosing the entry closes the picker.
    pub dismiss_on_select: bool,
}

/// A picker: its view, heading, entries and the entry selected first.
#[derive(Debug, Clone, PartialEq, Eq)]
pub struct PickerModel {
    pub view_id: String,
    pub title: String,
    pub subtitle: String,
    pub search_placeholder: String,
    /// Whether typing searches the entries.
    pub is_searchable: bool,
    /// Whether the picker's letter and shift keys act only while the search is
    /// empty (otherwise they are typed into the search).
    pub hotkeys_when_search_empty: bool,
    pub items: Vec<PickerItem>,
    pub initial_selected_idx: Option<usize>,
}

/// The entry at `idx`, when there is one.
pub open spec fn selected_entry<T>(entries: Seq<T>, idx: Option<usize>) -> Option<T> {
    match idx {
        Some(i) => if i < entries.len() {
            Some(entries[i as int])
        } else {
            None
        },
        None => None,
    }
}

/// What choosing the board `o` in the board picker asks for: bind the window
/// to it and open its sessions.
pub open spec fn board_enter_action(o: BoardOverview) -> BoardUiActionView {
    BoardUiActionView::BindBoard { board_id: o.board.id@, open_sessions_after: true }
}

/// What choosing the session `s` of `board_id` in the session picker asks
/// for: switch the window to it.
pub open spec fn session_enter_action(board_id: Seq<char>, s: BoardSession) -> BoardUiActionView {
    BoardUiActionView::SwitchBoardSession { board_id, thread_id: s.thread_id }
}

/// What `key` does in the board picker when the board at `selected_idx` is
/// selected: `n` asks for a new board whatever is selected; enter binds, `r`
/// renames and `d` asks to delete the selected board; nothing without one.
pub open spec fn board_picker_key_action_spec(
    boards: Seq<BoardOverview>,
    selected_idx: Option<usize>,
    key: HintKey,
) -> Option<BoardUiActionView> {
    if key == HintKey::Char('n') {
        Some(BoardUiActionView::OpenCreateBoardPrompt)
    } else {
        match selected_entry(boards, selected_idx) {
            None => None,
            Some(o) => match key {
                HintKey::Enter => Some(board_enter_action(o)),
                HintKey::Char(c) => if c == 'r' {
                    Some(BoardUiActionView::OpenRenameBoardPrompt { board_id: o.board.id@, current_name: o.board.name@ })
                } else if c == 'd' {
                    Some(BoardUiActionView::OpenDeleteBoardPrompt { board_id: o.board.id@, board_name: o.board.name@ })
                } else {
                    None
                },
                _ => None,
            },
        }
    }
}

/// What `key` does in the session picker of `board_id` when the session at
/// `selected_idx` is selected: `n` starts a new session whatever is selected;
/// enter switches to, `r` renames, `d` asks to remove, and shift with up or
/// down moves the selected session; nothing without one.
pub open spec fn session_picker_key_action_spec(
    board_id: Seq<char>,
    sessions: Seq<BoardSession>,
    selected_idx: Option<usize>,
    key: HintKey,
) -> Option<BoardUiActionView> {
    if key == HintKey::Char('n') {
        Some(BoardUiActionView::CreateBoundBoardSession)
    } else {
        match selected_entry(sessions, selected_idx) {
            None => None,
            Some(s) => match key {
                HintKey::Enter => Some(session_enter_action(board_id, s)),
                HintKey::Char(c) => if c == 'r' {
                    Some(BoardUiActionView::OpenRenameBoardSessionPrompt {
                        board_id,
                        thread_id: s.thread_id,
                        current_name: session_title_text(s),
                    })
                } else if c == 'd' {
                    Some(BoardUiActionView::OpenRemoveBoardSessionPrompt {
                        board_id,
                        thread_id: s.thread_id,
                        title: session_title_text(s),
                    })
                } else {
                    None
                },
                HintKey::ShiftUp => Some(BoardUiActionView::MoveBoardSession {
                    board_id,
                    thread_id: s.thread_id,
                    direction: BoardSessionMoveDirection::Up,
                }),
                HintKey::ShiftDown => Some(BoardUiActionView::MoveBoardSession {
                    board_id,
                    thread_id: s.thread_id,
                    direction: BoardSessionMoveDirection::Down,
                }),
            },
        }
    }
}

/// What `key` does in the board picker showing `boards` with the entry at
/// `selected_idx` selected.
pub fn board_picker_key_action(boards: &[BoardOverview], selected_idx: Option<usize>, key: HintKey) -> (r: Option<BoardUiAction>)
    ensures
        action_view(r) == board_picker_key_action_spec(boards@, selected_idx, key),
{
    if key == HintKey::Char('n') {
        return Some(BoardUiAction::OpenCreateBoardPrompt);
    }
    let o = match selected_idx {
        Some(i) => if i < boards.len() {
            &boards[i]
        } else {
            return None;
        },
        None => {
            return None;
        },
    };
    match key {
        HintKey::Enter => Some(BoardUiAction::BindBoard { board_id: o.board.id.clone(), open_sessions_after: true }),
        HintKey::Char(c) => if c == 'r' {
            Some(BoardUiAction::OpenRenameBoardPrompt { board_id: o.board.id.clone(), current_name: o.board.name.clone() })
        } else if c == 'd' {
            Some(BoardUiAction::OpenDeleteBoardPrompt { board_id: o.board.id.clone(), board_name: o.board.name.clone() })
        } else {
            None
        },
        _ => None,
    }
}

/// What `key` does in the session picker of `board_id` showing `sessions`
/// with the entry at `selected_idx` selected.
pub fn board_session_picker_key_action(
    board_id: &str,
    sessions: &[BoardSession],
    selected_idx: Option<usize>,
    key: HintKey,
) -> (r: Option<BoardUiAction>)
    ensures
        action_view(r) == session_picker_key_action_spec(board_id@, sessions@, selected_idx, key),
{
    if key == HintKey::Char('n') {
        return Some(BoardUiAction::CreateBoundBoardSession);
    }
    let s = match selected_idx {
        Some(i) => if i < sessions.len() {
            &sessions[i]
        } else {
            return None;
        },
        None => {
            return None;
        },
    };
    match key {
        HintKey::Enter => Some(BoardUiAction::SwitchBoardSession { board_id: board_id.to_owned(), thread_id: s.thread_id }),
        HintKey::Char(c) => if c == 'r' {
            Some(BoardUiAction::OpenRenameBoardSessionPrompt {
                board_id: board_id.to_owned(),
                thread_id: s.thread_id,
                current_name: board_session_title(s),
            })
        } else if c == 'd' {
            Some(BoardUiAction::OpenRemoveBoardSessionPrompt {
                board_id: board_id.to_owned(),
                thread_id: s.thread_id,
                title: board_session_title(s),
            })
        } else {
            None
        },
        HintKey::ShiftUp => Some(BoardUiAction::MoveBoardSession {
            board_id: board_id.to_owned(),
            thread_id: s.thread_id,
            direction: BoardSessionMoveDirection::Up,
        }),
        HintKey::ShiftDown => Some(BoardUiAction::MoveBoardSession {
            board_id: board_id.to_owned(),
            thread_id: s.thread_id,
            direction: BoardSessionMoveDirection::Down,
        }),
    }
}

/// The first place in `boards` of the board `board_id`.
pub open spec fn find_board_overview(boards: Seq<BoardOverview>, board_id: Seq<char>) -> Option<int>
    decreases boards.len(),
{
    if boards.len() == 0 {
        None
    } else if boards[0].board.id@ == board_id {
        Some(0)
    } else {
        match find_board_overview(boards.drop_first(), board_id) {
            Some(k) => Some(k + 1),
            None => None,
        }
    }
}

proof fn lemma_find_board_overview(boards: Seq<BoardOverview>, board_id: Seq<char>)
    ensures
        match find_board_overview(boards, board_id) {
            Some(m) => 0 <= m < boards.len() && boards[m].board.id@ == board_id && forall|k: int|
                0 <= k < m ==> (#[trigger] boards[k]).board.id@ != board_id,
            None => forall|k: int| 0 <= k < boards.len() ==> (#[trigger] boards[k]).board.id@ != board_id,
        },
    decreases boards.len(),
{
    if boards.len() > 0 && boards[0].board.id@ != board_id {
        lemma_find_board_overview(boards.drop_first(), board_id);
        assert forall|k: int| 1 <= k < boards.len() implies #[trigger] boards[k] == boards.drop_first()[k - 1] by {}
    }
}

/// Whether `item` is the board picker's entry for the board `o` when the
/// window is bound to `bound`.
pub open spec fn board_picker_item(item: PickerItem, o: BoardOverview, bound: Option<Seq<char>>) -> bool {
    &&& item.name@ == o.board.name@
    &&& item.description@ == overview_description_text(o)
    &&& item.is_current == (bound is Some && bound->0 == o.board.id@)
    &&& item.search_value@ == o.board.name@ + " "@ + o.board.id@
    &&& item.action@ == board_enter_action(o)
    &&& item.dismiss_on_select
}

/// Whether `item` is the session picker's entry for `s` when the window
/// shows the thread `current`.
pub open spec fn session_picker_item(
    item: PickerItem,
    board_id: Seq<char>,
    s: BoardSession,
    current: Option<ThreadId>,
) -> bool {
    &&& item.name@ == session_title_text(s)
    &&& item.action@ == session_enter_action(board_id, s)
    &&& item.dismiss_on_select
    &&& item.description@ == status_label_text(s.status)
    &&& item.is_current == (current == Some(s.thread_id))
    &&& item.search_value@ == session_title_text(s) + " "@ + uuid_text(s.thread_id.uuid)
}

/// The text of an optional piece of text.
pub open spec fn optional_str(o: Option<&str>) -> Option<Seq<char>> {
    match o {
        Some(s) => Some(s@),
        None => None,
    }
}

/// The board picker: one entry per board, in the order given, the board this
/// window is bound to marked current and selected first.
pub fn board_picker_model(boards: &[BoardOverview], bound_board_id: Option<&str>) -> (r: PickerModel)
    ensures
        r.view_id@ == board_picker_view_id(),
        r.title@ == "Boards"@,
        r.subtitle@ == "Bind this window to a board"@,
        r.search_placeholder@ == "Type to search boards"@,
        r.is_searchable,
        r.hotkeys_when_search_empty,
        r.items@.len() == boards@.len(),
        forall|k: int|
            0 <= k < boards@.len() ==> board_picker_item(
                #[trigger] r.items@[k],
                boards@[k],
                optional_str(bound_board_id),
            ),
        match bound_board_id {
            Some(b) => match find_board_overview(boards@, b@) {
                Some(m) => r.initial_selected_idx == Some(m as usize),
                None => r.initial_selected_idx is None,
            },
            None => r.initial_selected_idx is None,
        },
{
    let mut items: Vec<PickerItem> = Vec::new();
    let mut selected: Option<usize> = None;
    proof {
        if let Some(b) = bound_board_id {
            lemma_find_board_overview(boards@, b@);
        }
    }
    let mut k: usize = 0;
    while k < boards.len()
        invariant
            k <= boards@.len(),
            items@.len() == k,
            forall|j: int|
                0 <= j < k ==> board_picker_item(#[trigger] items@[j], boards@[j], optional_str(bound_board_id)),
            bound_board_id is None ==> selected is None,
            bound_board_id matches Some(b) ==> {
                &&& match find_board_overview(boards@, b@) {
                    Some(m) => 0 <= m < boards@.len() && boards@[m].board.id@ == b@ && forall|j: int|
                        0 <= j < m ==> (#[trigger] boards@[j]).board.id@ != b@,
                    None => forall|j: int| 0 <= j < boards@.len() ==> (#[trigger] boards@[j]).board.id@ != b@,
                }
                &&& match selected {
                    Some(m) => find_board_overview(boards@, b@) == Some(m as int),
                    None => forall|j: int| 0 <= j < k ==> (#[trigger] boards@[j]).board.id@ != b@,
                }
            },
        decreases boards@.len() - k,
    {
        let o = &boards[k];
        let is_current = match bound_board_id {
            Some(b) => text_eq(b, o.board.id.as_str()),
            None => false,
        };
        if is_current && selected.is_none() {
            selected = Some(k);
        }
        let mut search_value = o.board.name.clone();
        search_value.append(" ");
        search_value.append(o.board.id.as_str());
        items.push(
            PickerItem {
                name: o.board.name.clone(),
                description: board_overview_description(o),
                is_current,
                search_value,
                action: BoardUiAction::BindBoard { board_id: o.board.id.clone(), open_sessions_after: true },
                dismiss_on_select: true,
            },
        );
        k = k + 1;
    }
    PickerModel {
        view_id: String::from_str("kb-board-picker"),
        title: String::from_str("Boards"),
        subtitle: String::from_str("Bind this window to a board"),
        search_placeholder: String::from_str("Type to search boards"),
        is_searchable: true,
        hotkeys_when_search_empty: true,
        items,
        initial_selected_idx: selected,
    }
}

/// The session picker: one entry per session, in the order given, the
/// session of the current thread marked current; selected first is the
/// session of the preferred thread, else that of the current thread.
pub fn board_session_picker_model(
    board_id: &str,
    sessions: &[BoardSession],
    preferred_thread_id: Option<ThreadId>,
    current_thread_id: Option<ThreadId>,
) -> (r: PickerModel)
    ensures
        r.view_id@ == board_session_picker_view_id(),
        r.title@ == "Board Sessions"@,
        r.subtitle@ == "Switch sessions in the current board"@,
        r.search_placeholder@ == "Type to search sessions"@,
        r.is_searchable,
        r.hotkeys_when_search_empty,
        r.items@.len() == sessions@.len(),
        forall|k: int|
            0 <= k < sessions@.len() ==> session_picker_item(
                #[trigger] r.items@[k],
                board_id@,
                sessions@[k],
                current_thread_id,
            ),
        ({
            let wanted = if preferred_thread_id is Some {
                preferred_thread_id
            } else {
                current_thread_id
            };
            &&& r.initial_selected_idx is Some <==> wanted is Some && find_thread(
                sessions@,
                wanted->0,
            ) is Some
            &&& r.initial_selected_idx matches Some(k) ==> find_thread(sessions@, wanted->0) == Some(
                k as int,
            )
        }),
{
    let initial_selected_idx = board_session_picker_selected_idx(
        sessions,
        preferred_thread_id,
        current_thread_id,
    );
    let mut items: Vec<PickerItem> = Vec::new();
    let mut k: usize = 0;
    while k < sessions.len()
        invariant
            k <= sessions@.len(),
            items@.len() == k,
            forall|j: int|
                0 <= j < k ==> session_picker_item(#[trigger] items@[j], board_id@, sessions@[j], current_thread_id),
        decreases sessions@.len() - k,
    {
        let s = &sessions[k];
        let title = board_session_title(s);
        let mut search_value = title.clone();
        search_value.append(" ");
        let id_text = s.thread_id.to_text();
        search_value.append(id_text.as_str());
        items.push(
            PickerItem {
                name: title,
                description: board_session_description(s),
                is_current: current_thread_id == Some(s.thread_id),
                search_value,
                action: BoardUiAction::SwitchBoardSession { board_id: board_id.to_owned(), thread_id: s.thread_id },
                dismiss_on_select: true,
            },
        );
        k = k + 1;
    }
    PickerModel {
        view_id: String::from_str("kb-board-session-picker"),
        title: String::from_str("Board Sessions"),
        subtitle: String::from_str("Switch sessions in the current board"),
        search_placeholder: String::from_str("Type to search sessions"),
        is_searchable: true,
        hotkeys_when_search_empty: true,
        items,
        initial_selected_idx,
    }
}

/// A piece of a hint line: a key, or text, dimmed or not.
#[derive(Debug, Clone, PartialEq, Eq)]
pub enum HintSpan {
    Key(HintKey),
    Text { text: String, dim: bool },
}

/// Whether `span` is the text `text`, dimmed when `dim`.
pub open spec fn is_text_span(span: HintSpan, text: Seq<char>, dim: bool) -> bool {
    span matches HintSpan::Text { text: t, dim: d } && t@ == text && d == dim
}

fn text_span(text: &str, dim: bool) -> (r: HintSpan)
    ensures
        is_text_span(r, text@, dim),
{
    HintSpan::Text { text: text.to_owned(), dim }
}

/// The hint line of the board picker: enter binds, `n` creates, `r` renames,
/// `d` deletes, esc closes.
pub fn board_picker_hint_line() -> (r: Vec<HintSpan>)
    ensures
        r@.len() == 12,
        r@[0] == HintSpan::Key(HintKey::Enter),
        is_text_span(r@[1], " bind"@, true),
        is_text_span(r@[2], "  "@, false),
        r@[3] == HintSpan::Key(HintKey::Char('n')),
        is_text_span(r@[4], " create"@, true),
        is_text_span(r@[5], "  "@, false),
        r@[6] == HintSpan::Key(HintKey::Char('r')),
        is_text_span(r@[7], " rename"@, true),
        is_text_span(r@[8], "  "@, false),
        r@[9] == HintSpan::Key(HintKey::Char('d')),
        is_text_span(r@[10], " delete"@, true),
        is_text_span(r@[11], "  esc close"@, true),
{
    let mut r: Vec<HintSpan> = Vec::new();
    r.push(HintSpan::Key(HintKey::Enter));
    r.push(text_span(" bind", true));
    r.push(text_span("  ", false));
    r.push(HintSpan::Key(HintKey::Char('n')));
    r.push(text_span(" create", true));
    r.push(text_span("  ", false));
    r.push(HintSpan::Key(HintKey::Char('r')));
    r.push(text_span(" rename", true));
    r.push(text_span("  ", false));
    r.push(HintSpan::Key(HintKey::Char('d')));
    r.push(text_span(" delete", true));
    r.push(text_span("  esc close", true));
    r
}

/// The hint line of the session picker: enter switches, `n` starts a new
/// session, `r` renames, `d` removes, shift with up or down moves, esc closes.
pub fn board_sessions_hint_line() -> (r: Vec<HintSpan>)
    ensures
        r@.len() == 17,
        r@[0] == HintSpan::Key(HintKey::Enter),
        is_text_span(r@[1], " switch"@, true),
        is_text_span(r@[2], "  "@, false),
        r@[3] == HintSpan::Key(HintKey::Char('n')),
        is_text_span(r@[4], " new"@, true),
        is_text_span(r@[5], "  "@, false),
        r@[6] == HintSpan::Key(HintKey::Char('r')),
        is_text_span(r@[7], " rename"@, true),
        is_text_span(r@[8], "  "@, false),
        r@[9] == HintSpan::Key(HintKey::Char('d')),
        is_text_span(r@[10], " remove"@, true),
        is_text_span(r@[11], "  "@, false),
        r@[12] == HintSpan::Key(HintKey::ShiftUp),
        is_text_span(r@[13], "/"@, true),
        r@[14] == HintSpan::Key(HintKey::ShiftDown),
        is_text_span(r@[15], " move"@, true),
        is_text_span(r@[16], "  esc close"@, true),
{
    let mut r: Vec<HintSpan> = Vec::new();
    r.push(HintSpan::Key(HintKey::Enter));
    r.push(text_span(" switch", true));
    r.push(text_span("  ", false));
    r.push(HintSpan::Key(HintKey::Char('n')));
    r.push(text_span(" new", true));
    r.push(text_span("  ", false));
    r.push(HintSpan::Key(HintKey::Char('r')));
    r.push(text_span(" rename", true));
    r.push(text_span("  ", false));
    r.push(HintSpan::Key(HintKey::Char('d')));
    r.push(text_span(" remove", true));
    r.push(text_span("  ", false));
    r.push(HintSpan::Key(HintKey::ShiftUp));
    r.push(text_span("/", true));
    r.push(HintSpan::Key(HintKey::ShiftDown));
    r.push(text_span(" move", true));
    r.push(text_span("  esc close", true));
    r
}

/// The hint line of a confirmation: `enter <confirm>  esc <cancel>`, dimmed.
pub fn confirm_picker_hint_line(confirm_action: &str, cancel_action: &str) -> (r: Vec<HintSpan>)
    ensures
        r@.len() == 1,
        is_text_span(r@[0], "enter "@ + confirm_action@ + "  esc "@ + cancel_action@, true),
{
    let mut text = String::from_str("enter ");
    text.append(confirm_action);
    text.append("  esc ");
    text.append(cancel_action);
    let mut r: Vec<HintSpan> = Vec::new();
    r.push(HintSpan::Text { text, dim: true });
    r
}

/// A question that the user confirms or cancels.
#[derive(Debug, Clone, PartialEq, Eq)]
pub struct ConfirmPrompt {
    pub title: String,
    pub subtitle: String,
    pub hint: Vec<HintSpan>,
    pub confirm_name: String,
    pub confirm_description: String,
    /// What confirming asks for; cancelling asks for nothing. Either closes the prompt.
    pub confirm_action: BoardUiAction,
    pub cancel_name: String,
}

/// The question asked before the board `board_id` named `board_name` is
/// deleted; only confirming deletes it.
pub fn delete_board_prompt(board_id: String, board_name: String) -> (r: ConfirmPrompt)
    ensures
        r.confirm_action@ == (BoardUiActionView::DeleteBoard { board_id: board_id@ }),
        r.title@ == "Delete board?"@,
        r.subtitle == board_name,
        r.hint@.len() == 1,
        is_text_span(r.hint@[0], "enter "@ + "delete"@ + "  esc "@ + "cancel"@, true),
        r.confirm_name@ == "Delete board"@,
        r.confirm_description@ == "Board metadata and board-session mappings will be removed."@,
        r.cancel_name@ == "Cancel"@,
{
    ConfirmPrompt {
        title: String::from_str("Delete board?"),
        subtitle: board_name,
        hint: confirm_picker_hint_line("delete", "cancel"),
        confirm_name: String::from_str("Delete board"),
        confirm_description: String::from_str("Board metadata and board-session mappings will be removed."),
        confirm_action: BoardUiAction::DeleteBoard { board_id },
        cancel_name: String::from_str("Cancel"),
    }
}

/// The question asked before the session of `thread_id` titled `title` is
/// removed from the board `board_id`; only confirming removes it.
pub fn remove_board_session_prompt(board_id: String, thread_id: ThreadId, title: String) -> (r: ConfirmPrompt)
    ensures
        r.confirm_action@ == (BoardUiActionView::RemoveBoardSession { board_id: board_id@, thread_id }),
        r.title@ == "Remove session from board?"@,
        r.subtitle == title,
        r.hint@.len() == 1,
        is_text_span(r.hint@[0], "enter "@ + "remove"@ + "  esc "@ + "cancel"@, true),
        r.confirm_name@ == "Remove from board"@,
        r.confirm_description@ == "The underlying chat history stays available via /resume."@,
        r.cancel_name@ == "Cancel"@,
{
    ConfirmPrompt {
        title: String::from_str("Remove session from board?"),
        subtitle: title,
        hint: confirm_picker_hint_line("remove", "cancel"),
        confirm_name: String::from_str("Remove from board"),
        confirm_description: String::from_str("The underlying chat history stays available via /resume."),
        confirm_action: BoardUiAction::RemoveBoardSession { board_id, thread_id },
        cancel_name: String::from_str("Cancel"),
    }
}

/// The number of whitespace characters that a text starts with.
pub open spec fn leading_whitespace(s: Seq<char>) -> nat
    decreases s.len(),
{
    if s.len() > 0 && crate::text::is_whitespace_char(s[0]) {
        1 + leading_whitespace(s.drop_first())
    } else {
        0
    }
}

/// The number of whitespace characters that a text ends with.
pub open spec fn trailing_whitespace(s: Seq<char>) -> nat
    decreases s.len(),
{
    if s.len() > 0 && crate::text::is_whitespace_char(s.last()) {
        1 + trailing_whitespace(s.drop_last())
    } else {
        0
    }
}

/// A text without the whitespace it starts and ends with.
pub open spec fn trimmed_text(s: Seq<char>) -> Seq<char> {
    if is_blank_text(s) {
        Seq::empty()
    } else {
        s.subrange(leading_whitespace(s) as int, s.len() - trailing_whitespace(s))
    }
}

proof fn lemma_leading_whitespace(s: Seq<char>)
    ensures
        leading_whitespace(s) <= s.len(),
        forall|i: int| 0 <= i < leading_whitespace(s) ==> crate::text::is_whitespace_char(#[trigger] s[i]),
        leading_whitespace(s) < s.len() ==> !crate::text::is_whitespace_char(s[leading_whitespace(s) as int]),
    decreases s.len(),
{
    if s.len() > 0 && crate::text::is_whitespace_char(s[0]) {
        lemma_leading_whitespace(s.drop_first());
        assert forall|i: int| 1 <= i < s.len() implies #[trigger] s[i] == s.drop_first()[i - 1] by {}
    }
}

proof fn lemma_trailing_whitespace(s: Seq<char>)
    ensures
        trailing_whitespace(s) <= s.len(),
        forall|i: int| s.len() - trailing_whitespace(s) <= i < s.len() ==> crate::text::is_whitespace_char(#[trigger] s[i]),
        trailing_whitespace(s) < s.len() ==> !crate::text::is_whitespace_char(s[s.len() - 1 - trailing_whitespace(s)]),
    decreases s.len(),
{
    if s.len() > 0 && crate::text::is_whitespace_char(s.last()) {
        lemma_trailing_whitespace(s.drop_last());
        assert forall|i: int| 0 <= i < s.len() - 1 implies #[trigger] s[i] == s.drop_last()[i] by {}
    }
}

/// The text with the whitespace it starts and ends with removed, as `str::trim` does.
pub fn trim_text(s: &str) -> (r: String)
    ensures
        r@ == trimmed_text(s@),
{
    proof {
        lemma_leading_whitespace(s@);
        lemma_trailing_whitespace(s@);
    }
    if is_blank(s) {
        return String::new();
    }
    let n = s.unicode_len();
    let mut a: usize = 0;
    assert(s@.skip(0) =~= s@);
    while a < n && crate::text::char_is_whitespace(s.get_char(a))
        invariant
            n == s@.len(),
            a <= n,
            !is_blank_text(s@),
            leading_whitespace(s@) == a + leading_whitespace(s@.skip(a as int)),
        decreases n - a,
    {
        assert(s@.skip(a as int).drop_first() =~= s@.skip(a + 1));
        a = a + 1;
    }
    if a < n {
        assert(s@.skip(a as int)[0] == s@[a as int]);
    } else {
        assert forall|i: int| 0 <= i < s@.len() implies crate::text::is_whitespace_char(#[trigger] s@[i]) by {
            assert(i < leading_whitespace(s@));
        }
    }
    let mut b: usize = n;
    assert(s@.take(n as int) =~= s@);
    while b > a && crate::text::char_is_whitespace(s.get_char(b - 1))
        invariant
            n == s@.len(),
            a < n,
            a <= b <= n,
            !crate::text::is_whitespace_char(s@[a as int]),
            trailing_whitespace(s@) == (n - b) + trailing_whitespace(s@.take(b as int)),
        decreases b,
    {
        assert(s@.take(b as int).drop_last() =~= s@.take(b - 1));
        b = b - 1;
    }
    assert(s@.take(b as int).last() == s@[b - 1]);
    s.substring_char(a, b).to_owned()
}

/// The name a board gets from what the user typed: the input trimmed; none
/// when nothing but whitespace was typed.
pub fn board_name_from_input(input: &str) -> (r: Option<String>)
    ensures
        r is None <==> is_blank_text(input@),
        r matches Some(name) ==> name@ == trimmed_text(input@),
{
    if is_blank(input) {
        None
    } else {
        Some(trim_text(input))
    }
}

} // verus!
