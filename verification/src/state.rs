//! The state of the board store as a mathematical value, its invariant,
//! and the transitions that the store's operations make.

use vstd::prelude::*;
use crate::model::{Board, BoardSession};
use crate::status::BoardSessionStatus;
use crate::thread_id::ThreadId;
use crate::ordering::{
    sort_by_position, sort_boards, positions_distinct, positions_increase, lemma_sort_by_position,
    same_listing_key, session_listed_before,
};
use crate::status::BoardSessionMoveDirection;

verus! {

/// What the store holds: its boards and all board sessions, removed ones included.
pub struct BoardsState {
    pub boards: Seq<Board>,
    pub sessions: Seq<BoardSession>,
}

/// Whether a session is still on its board.
pub open spec fn is_active(s: BoardSession) -> bool {
    s.removed_at is None
}

/// Whether a session is the row of `thread` on the board `board_id`.
pub open spec fn is_row_of(s: BoardSession, board_id: Seq<char>, thread: ThreadId) -> bool {
    s.board_id@ == board_id && s.thread_id == thread
}

/// Whether a session is the active row of `thread` on the board `board_id`.
pub open spec fn is_active_row_of(s: BoardSession, board_id: Seq<char>, thread: ThreadId) -> bool {
    is_row_of(s, board_id, thread) && is_active(s)
}

/// `new` is `old` with its last update stamped `now`.
pub open spec fn board_touched(old: Board, new: Board, now: i64) -> bool {
    &&& new.id == old.id
    &&& new.name == old.name
    &&& new.created_at == old.created_at
    &&& new.updated_at == now
    &&& new.last_selected_thread_id == old.last_selected_thread_id
}

impl BoardsState {
    /// Whether a board has the identifier `id`.
    pub open spec fn has_board(self, id: Seq<char>) -> bool {
        exists|i: int| 0 <= i < self.boards.len() && (#[trigger] self.boards[i]).id@ == id
    }

    /// Whether the board `board_id` holds `thread` as an active session.
    pub open spec fn has_active_row(self, board_id: Seq<char>, thread: ThreadId) -> bool {
        exists|i: int|
            0 <= i < self.sessions.len() && is_active_row_of(#[trigger] self.sessions[i], board_id, thread)
    }

    /// Whether the board `board_id` has a row for `thread`, removed or not.
    pub open spec fn has_row(self, board_id: Seq<char>, thread: ThreadId) -> bool {
        exists|i: int|
            0 <= i < self.sessions.len() && is_row_of(#[trigger] self.sessions[i], board_id, thread)
    }

    /// The invariant of the store: board identifiers are unique, a board has
    /// at most one row per thread, and every row belongs to a board. Sessions
    /// of one board may share a position; the listing then orders them by
    /// when they were added.
    pub open spec fn wf(self) -> bool {
        &&& forall|i: int, j: int|
            0 <= i < self.boards.len() && 0 <= j < self.boards.len() && i != j
                ==> #[trigger] self.boards[i].id@ != #[trigger] self.boards[j].id@
        &&& forall|i: int, j: int|
            0 <= i < self.sessions.len() && 0 <= j < self.sessions.len() && i != j
                ==> !is_row_of(
                #[trigger] self.sessions[i],
                #[trigger] self.sessions[j].board_id@,
                self.sessions[j].thread_id,
            )
        &&& forall|i: int|
            0 <= i < self.sessions.len() ==> self.has_board(#[trigger] self.sessions[i].board_id@)
    }
}

/// `new` is `old` with each board that `sel` picks changed as `rel` relates them,
/// and every other board left as it was, in the same places.
pub open spec fn boards_changed(
    old: Seq<Board>,
    new: Seq<Board>,
    sel: spec_fn(Board) -> bool,
    rel: spec_fn(Board, Board) -> bool,
) -> bool {
    &&& new.len() == old.len()
    &&& forall|i: int|
        #![trigger old[i]]
        #![trigger new[i]]
        0 <= i < old.len() ==> if sel(old[i]) {
            rel(old[i], new[i])
        } else {
            new[i] == old[i]
        }
}

/// `new` is `old` with each session that `sel` picks changed as `rel` relates
/// them, and every other session left as it was, in the same places.
pub open spec fn sessions_changed(
    old: Seq<BoardSession>,
    new: Seq<BoardSession>,
    sel: spec_fn(BoardSession) -> bool,
    rel: spec_fn(BoardSession, BoardSession) -> bool,
) -> bool {
    &&& new.len() == old.len()
    &&& forall|i: int|
        #![trigger old[i]]
        #![trigger new[i]]
        0 <= i < old.len() ==> if sel(old[i]) {
            rel(old[i], new[i])
        } else {
            new[i] == old[i]
        }
}

/// `new` is the board `old` renamed to `name` at `now`.
pub open spec fn board_renamed(old: Board, new: Board, name: Seq<char>, now: i64) -> bool {
    &&& new.id == old.id
    &&& new.name@ == name
    &&& new.created_at == old.created_at
    &&& new.updated_at == now
    &&& new.last_selected_thread_id == old.last_selected_thread_id
}

/// `old` with `thread` selected at `now`.
pub open spec fn board_selecting(old: Board, thread: Option<ThreadId>, now: i64) -> Board {
    Board {
        id: old.id,
        name: old.name,
        created_at: old.created_at,
        updated_at: now,
        last_selected_thread_id: thread,
    }
}

/// `old` with its selection moved from `from` to `to`, if `from` was selected,
/// stamped at `now`.
pub open spec fn board_reselected(old: Board, from: ThreadId, to: ThreadId, now: i64) -> Board {
    board_selecting(
        old,
        if old.last_selected_thread_id == Some(from) {
            Some(to)
        } else {
            old.last_selected_thread_id
        },
        now,
    )
}

/// `old` stamped as updated at `now`.
pub open spec fn board_stamped(old: Board, now: i64) -> Board {
    board_selecting(old, old.last_selected_thread_id, now)
}

/// The session `old` with the status `status`.
pub open spec fn session_with_status(old: BoardSession, status: BoardSessionStatus) -> BoardSession {
    BoardSession {
        board_id: old.board_id,
        thread_id: old.thread_id,
        title_snapshot: old.title_snapshot,
        sort_order: old.sort_order,
        status: status,
        last_seen_event_idx: old.last_seen_event_idx,
        last_event_idx: old.last_event_idx,
        added_at: old.added_at,
        removed_at: old.removed_at,
    }
}

/// The session `old` taken off its board at `now`.
pub open spec fn session_removed(old: BoardSession, now: i64) -> BoardSession {
    BoardSession {
        board_id: old.board_id,
        thread_id: old.thread_id,
        title_snapshot: old.title_snapshot,
        sort_order: old.sort_order,
        status: old.status,
        last_seen_event_idx: old.last_seen_event_idx,
        last_event_idx: old.last_event_idx,
        added_at: old.added_at,
        removed_at: Some(now),
    }
}

/// The session `old` at position `sort_order`.
pub open spec fn session_at_position(old: BoardSession, sort_order: i64) -> BoardSession {
    BoardSession {
        board_id: old.board_id,
        thread_id: old.thread_id,
        title_snapshot: old.title_snapshot,
        sort_order: sort_order,
        status: old.status,
        last_seen_event_idx: old.last_seen_event_idx,
        last_event_idx: old.last_event_idx,
        added_at: old.added_at,
        removed_at: old.removed_at,
    }
}

/// The index of the next event of a session: one past its last, or 0 before any.
pub open spec fn next_event_idx(last: Option<i64>) -> int {
    match last {
        Some(k) => k + 1,
        None => 0,
    }
}

/// The session `old` after one more event, which left it in `status`.
pub open spec fn session_with_activity(old: BoardSession, status: BoardSessionStatus) -> BoardSession {
    BoardSession {
        board_id: old.board_id,
        thread_id: old.thread_id,
        title_snapshot: old.title_snapshot,
        sort_order: old.sort_order,
        status: status,
        last_seen_event_idx: old.last_seen_event_idx,
        last_event_idx: Some(next_event_idx(old.last_event_idx) as i64),
        added_at: old.added_at,
        removed_at: old.removed_at,
    }
}

/// Whether a status stays as it is when its session is seen.
pub open spec fn status_survives_seen(status: BoardSessionStatus) -> bool {
    status == BoardSessionStatus::Running || status == BoardSessionStatus::WaitingApproval || status
        == BoardSessionStatus::Errored
}

/// The session `old` once it has been seen: a session that is running, waiting
/// for approval or errored keeps its status, any other becomes `Seen`; and the
/// last event, if there was one, is the last seen event.
pub open spec fn session_seen(old: BoardSession) -> BoardSession {
    BoardSession {
        board_id: old.board_id,
        thread_id: old.thread_id,
        title_snapshot: old.title_snapshot,
        sort_order: old.sort_order,
        status: if status_survives_seen(old.status) {
            old.status
        } else {
            BoardSessionStatus::Seen
        },
        last_seen_event_idx: if old.last_event_idx is None {
            old.last_seen_event_idx
        } else {
            old.last_event_idx
        },
        last_event_idx: old.last_event_idx,
        added_at: old.added_at,
        removed_at: old.removed_at,
    }
}

/// A change made to every active session of a thread.
pub enum ThreadRowChange {
    Title(String),
    Status(BoardSessionStatus),
    Activity(BoardSessionStatus),
}

/// `new` is `old` changed by `change`.
pub open spec fn thread_row_changed(old: BoardSession, new: BoardSession, change: ThreadRowChange) -> bool {
    match change {
        ThreadRowChange::Title(t) => session_retitled(old, new, t@),
        ThreadRowChange::Status(s) => new == session_with_status(old, s),
        ThreadRowChange::Activity(s) => new == session_with_activity(old, s),
    }
}

/// Whether some active session of `thread` has had so many events that the
/// index of the next does not fit in an `i64`.
pub open spec fn thread_events_exhausted(sessions: Seq<BoardSession>, thread: ThreadId) -> bool {
    exists|i: int|
        0 <= i < sessions.len() && is_active(#[trigger] sessions[i]) && sessions[i].thread_id == thread
            && sessions[i].last_event_idx == Some(i64::MAX)
}

/// `new` is `old` with the title `title` and nothing else changed.
pub open spec fn session_retitled(old: BoardSession, new: BoardSession, title: Seq<char>) -> bool {
    &&& new.board_id == old.board_id
    &&& new.thread_id == old.thread_id
    &&& new.title_snapshot@ == title
    &&& new.sort_order == old.sort_order
    &&& new.status == old.status
    &&& new.last_seen_event_idx == old.last_seen_event_idx
    &&& new.last_event_idx == old.last_event_idx
    &&& new.added_at == old.added_at
    &&& new.removed_at == old.removed_at
}

/// `new` is `old` handed over to `thread` with the title `title`: same place
/// on the board, status unknown, no events.
pub open spec fn session_handed_over(
    old: BoardSession,
    new: BoardSession,
    thread: ThreadId,
    title: Seq<char>,
) -> bool {
    &&& new.board_id == old.board_id
    &&& new.thread_id == thread
    &&& new.title_snapshot@ == title
    &&& new.sort_order == old.sort_order
    &&& new.status == BoardSessionStatus::Unknown
    &&& new.last_seen_event_idx is None
    &&& new.last_event_idx is None
    &&& new.added_at == old.added_at
    &&& new.removed_at == old.removed_at
}

/// `new` is the row `old` put back at the end of its board at `now`: titled
/// `title`, at position `sort_order`, status unknown, its event indices kept.
pub open spec fn session_readded(
    old: BoardSession,
    new: BoardSession,
    title: Seq<char>,
    sort_order: int,
    now: i64,
) -> bool {
    &&& new.board_id == old.board_id
    &&& new.thread_id == old.thread_id
    &&& new.title_snapshot@ == title
    &&& new.sort_order == sort_order
    &&& new.status == BoardSessionStatus::Unknown
    &&& new.last_seen_event_idx == old.last_seen_event_idx
    &&& new.last_event_idx == old.last_event_idx
    &&& new.added_at == now
    &&& new.removed_at is None
}

/// The largest position of an active session on the board `board_id`, if it has any.
pub open spec fn max_active_sort(sessions: Seq<BoardSession>, board_id: Seq<char>) -> Option<int>
    decreases sessions.len(),
{
    if sessions.len() == 0 {
        None
    } else {
        let prev = max_active_sort(sessions.drop_last(), board_id);
        let s = sessions.last();
        if is_active(s) && s.board_id@ == board_id {
            match prev {
                Some(m) => Some(if m < s.sort_order { s.sort_order as int } else { m }),
                None => Some(s.sort_order as int),
            }
        } else {
            prev
        }
    }
}

/// The position a session added to the board `board_id` takes: one past the
/// largest position of its active sessions, or 0 on an empty board.
pub open spec fn next_sort_order(sessions: Seq<BoardSession>, board_id: Seq<char>) -> int {
    match max_active_sort(sessions, board_id) {
        Some(m) => m + 1,
        None => 0,
    }
}

/// The number of active sessions of `thread`, over all boards.
pub open spec fn count_active_of_thread(sessions: Seq<BoardSession>, thread: ThreadId) -> nat
    decreases sessions.len(),
{
    if sessions.len() == 0 {
        0
    } else {
        count_active_of_thread(sessions.drop_last(), thread) + if is_active(sessions.last())
            && sessions.last().thread_id == thread {
            1nat
        } else {
            0nat
        }
    }
}

/// Whether a session is active on the board `board_id`.
pub open spec fn is_listed_on(s: BoardSession, board_id: Seq<char>) -> bool {
    is_active(s) && s.board_id@ == board_id
}

/// The active sessions of the board `board_id`, in listing order: by position, then by when they were added.
pub open spec fn board_session_list(st: BoardsState, board_id: Seq<char>) -> Seq<BoardSession> {
    sort_by_position(st.sessions.filter(|s: BoardSession| is_listed_on(s, board_id)))
}

/// The boards, most recently updated first, then by name.
pub open spec fn board_list(st: BoardsState) -> Seq<Board> {
    sort_boards(st.boards)
}

/// The number of active sessions of the board `board_id`, of any status when
/// `status` is `None` and of that status otherwise.
pub open spec fn count_board_sessions(
    sessions: Seq<BoardSession>,
    board_id: Seq<char>,
    status: Option<BoardSessionStatus>,
) -> nat
    decreases sessions.len(),
{
    if sessions.len() == 0 {
        0
    } else {
        let s = sessions.last();
        count_board_sessions(sessions.drop_last(), board_id, status) + if is_listed_on(s, board_id)
            && (status is None || s.status == status->0) {
            1nat
        } else {
            0nat
        }
    }
}

/// The first place in `l` of a session of `thread`, if there is one.
pub open spec fn find_thread(l: Seq<BoardSession>, thread: ThreadId) -> Option<int>
    decreases l.len(),
{
    if l.len() == 0 {
        None
    } else if l[0].thread_id == thread {
        Some(0)
    } else {
        match find_thread(l.drop_first(), thread) {
            Some(k) => Some(k + 1),
            None => None,
        }
    }
}

/// What `find_thread` finds.
pub proof fn lemma_find_thread(l: Seq<BoardSession>, thread: ThreadId)
    ensures
        match find_thread(l, thread) {
            Some(m) => 0 <= m < l.len() && l[m].thread_id == thread && forall|k: int|
                0 <= k < m ==> (#[trigger] l[k]).thread_id != thread,
            None => forall|k: int| 0 <= k < l.len() ==> (#[trigger] l[k]).thread_id != thread,
        },
    decreases l.len(),
{
    if l.len() > 0 && l[0].thread_id != thread {
        lemma_find_thread(l.drop_first(), thread);
        assert forall|k: int| 1 <= k < l.len() implies #[trigger] l[k] == l.drop_first()[k - 1] by {}
    }
}

/// The place a session moves to from `from` in a list of `len` sessions, if it can move.
pub open spec fn move_target(from: int, direction: BoardSessionMoveDirection, len: int) -> Option<int> {
    match direction {
        BoardSessionMoveDirection::Up => if from > 0 { Some(from - 1) } else { None },
        BoardSessionMoveDirection::Down => if from + 1 < len { Some(from + 1) } else { None },
    }
}

/// The place in the listing that the session of `thread` takes when the
/// sessions at `from` and `to` of `l` swap places.
pub open spec fn moved_position(l: Seq<BoardSession>, from: int, to: int, thread: ThreadId) -> int {
    let k = find_thread(l, thread)->0;
    if k == from {
        to
    } else if k == to {
        from
    } else {
        k
    }
}

/// Whether no two rows are of one board and one thread.
pub open spec fn rows_distinct(sessions: Seq<BoardSession>) -> bool {
    forall|i: int, j: int|
        0 <= i < sessions.len() && 0 <= j < sessions.len() && i != j ==> !is_row_of(
            #[trigger] sessions[i],
            #[trigger] sessions[j].board_id@,
            sessions[j].thread_id,
        )
}

/// The sessions listed on one board are of distinct threads, so no two share
/// position, time of adding and thread.
pub proof fn lemma_filter_positions_distinct(sessions: Seq<BoardSession>, board_id: Seq<char>)
    requires
        rows_distinct(sessions),
    ensures
        positions_distinct(sessions.filter(|s: BoardSession| is_listed_on(s, board_id))),
    decreases sessions.len(),
{
    let pred = |s: BoardSession| is_listed_on(s, board_id);
    if sessions.len() > 0 {
        let init = sessions.drop_last();
        let x = sessions.last();
        assert(rows_distinct(init)) by {
            assert forall|i: int, j: int| 0 <= i < init.len() && 0 <= j < init.len() && i != j implies !is_row_of(
                #[trigger] init[i],
                #[trigger] init[j].board_id@,
                init[j].thread_id,
            ) by {
                assert(init[i] == sessions[i] && init[j] == sessions[j]);
            }
        }
        lemma_filter_positions_distinct(init, board_id);
        assert(sessions =~= init.push(x));
        init.lemma_filter_push(x, pred);
        let fi = init.filter(pred);
        if pred(x) {
            let f = fi.push(x);
            assert forall|i: int, j: int| 0 <= i < f.len() && 0 <= j < f.len() && i != j implies !same_listing_key(
                #[trigger] f[i],
                #[trigger] f[j],
            ) by {
                if i < fi.len() && j < fi.len() {
                    assert(f[i] == fi[i] && f[j] == fi[j]);
                } else {
                    let k = if i < fi.len() { i } else { j };
                    assert(f[k] == fi[k]);
                    assert(fi.contains(fi[k]));
                    init.lemma_filter_contains_rev(pred, fi[k]);
                    let q = choose|q: int| 0 <= q < init.len() && init[q] == fi[k];
                    init.lemma_filter_pred(pred, k);
                    assert(sessions[q] == init[q]);
                    assert(sessions[sessions.len() - 1] == x);
                    assert(!is_row_of(sessions[q], x.board_id@, x.thread_id));
                    assert(fi[k].thread_id != x.thread_id);
                    assert(fi[k].thread_id.uuid != x.thread_id.uuid);
                }
            }
        }
    }
}

/// The listing of a board holds exactly its active sessions, in strictly
/// increasing listing order, each thread at most once.
pub proof fn lemma_board_session_list(st: BoardsState, board_id: Seq<char>)
    requires
        st.wf(),
    ensures
        positions_increase(board_session_list(st, board_id)),
        board_session_list(st, board_id).to_multiset() == st.sessions.filter(
            |s: BoardSession| is_listed_on(s, board_id),
        ).to_multiset(),
        forall|j: int|
            0 <= j < st.sessions.len() && is_listed_on(#[trigger] st.sessions[j], board_id)
                ==> board_session_list(st, board_id).contains(st.sessions[j]),
        forall|m: int|
            0 <= m < board_session_list(st, board_id).len() ==> is_listed_on(
                #[trigger] board_session_list(st, board_id)[m],
                board_id,
            ) && st.sessions.contains(board_session_list(st, board_id)[m]),
        forall|m1: int, m2: int|
            0 <= m1 < board_session_list(st, board_id).len() && 0 <= m2 < board_session_list(
                st,
                board_id,
            ).len() && m1 != m2 ==> (#[trigger] board_session_list(st, board_id)[m1]).thread_id
                != (#[trigger] board_session_list(st, board_id)[m2]).thread_id,
{
    broadcast use vstd::seq_lib::group_to_multiset_ensures;
    let pred = |s: BoardSession| is_listed_on(s, board_id);
    let f = st.sessions.filter(pred);
    let l = board_session_list(st, board_id);
    lemma_filter_positions_distinct(st.sessions, board_id);
    lemma_sort_by_position(f);
    assert forall|j: int|
        0 <= j < st.sessions.len() && is_listed_on(#[trigger] st.sessions[j], board_id)
            implies l.contains(st.sessions[j]) by {
        st.sessions.lemma_filter_contains(pred, j);
        assert(f.to_multiset().count(st.sessions[j]) > 0);
        assert(l.to_multiset().count(st.sessions[j]) > 0);
    }
    assert forall|m: int| 0 <= m < l.len() implies is_listed_on(#[trigger] l[m], board_id)
        && st.sessions.contains(l[m]) by {
        assert(l.to_multiset().count(l[m]) > 0);
        assert(f.contains(l[m]));
        let k = choose|k: int| 0 <= k < f.len() && f[k] == l[m];
        st.sessions.lemma_filter_pred(pred, k);
        st.sessions.lemma_filter_contains_rev(pred, l[m]);
    }
    assert forall|m1: int, m2: int|
        0 <= m1 < l.len() && 0 <= m2 < l.len() && m1 != m2 implies (#[trigger] l[m1]).thread_id
            != (#[trigger] l[m2]).thread_id by {
        assert(is_listed_on(l[m1], board_id) && st.sessions.contains(l[m1]));
        assert(is_listed_on(l[m2], board_id) && st.sessions.contains(l[m2]));
        let j1 = choose|j: int| 0 <= j < st.sessions.len() && st.sessions[j] == l[m1];
        let j2 = choose|j: int| 0 <= j < st.sessions.len() && st.sessions[j] == l[m2];
        if m1 < m2 {
            assert(session_listed_before(l[m1], l[m2]));
        } else {
            assert(session_listed_before(l[m2], l[m1]));
        }
        assert(j1 != j2);
        assert(!is_row_of(st.sessions[j1], st.sessions[j2].board_id@, st.sessions[j2].thread_id));
    }
}

/// The ids of the boards kept the same, place by place.
pub open spec fn same_board_ids(old: Seq<Board>, new: Seq<Board>) -> bool {
    &&& new.len() == old.len()
    &&& forall|i: int| 0 <= i < old.len() ==> (#[trigger] new[i]).id == old[i].id
}

/// A change that keeps every board's id and every row's board, and leaves no
/// two rows of a board on one thread, keeps the invariant.
pub proof fn lemma_wf_kept_keys(old: BoardsState, new: BoardsState)
    requires
        old.wf(),
        same_board_ids(old.boards, new.boards),
        new.sessions.len() == old.sessions.len(),
        forall|i: int|
            0 <= i < old.sessions.len() ==> {
                &&& (#[trigger] new.sessions[i]).board_id == old.sessions[i].board_id
            },
        forall|i: int, j: int|
            0 <= i < new.sessions.len() && 0 <= j < new.sessions.len() && i != j
                ==> !is_row_of(
                #[trigger] new.sessions[i],
                #[trigger] new.sessions[j].board_id@,
                new.sessions[j].thread_id,
            ),
    ensures
        new.wf(),
{
    assert forall|i: int| 0 <= i < new.sessions.len() implies new.has_board(
        #[trigger] new.sessions[i].board_id@,
    ) by {
        assert(old.sessions[i].board_id == new.sessions[i].board_id);
        assert(old.has_board(old.sessions[i].board_id@));
        let j = choose|j: int|
            0 <= j < old.boards.len() && (#[trigger] old.boards[j]).id@ == old.sessions[i].board_id@;
        assert(new.boards[j].id == old.boards[j].id);
    }
    assert forall|i: int, j: int|
        0 <= i < new.boards.len() && 0 <= j < new.boards.len() && i != j
            implies #[trigger] new.boards[i].id@ != #[trigger] new.boards[j].id@ by {
        assert(new.boards[i].id == old.boards[i].id);
        assert(new.boards[j].id == old.boards[j].id);
        assert(old.boards[i].id@ != old.boards[j].id@);
    }
}

/// `row` is the row of `thread` that a session added to the board `board_id`
/// at `now` gets when the board had no row for it: titled `title`, at
/// position `sort_order`, status unknown, no events.
pub open spec fn session_added(
    row: BoardSession,
    board_id: Seq<char>,
    thread: ThreadId,
    title: Seq<char>,
    sort_order: int,
    now: i64,
) -> bool {
    &&& row.board_id@ == board_id
    &&& row.thread_id == thread
    &&& row.title_snapshot@ == title
    &&& row.sort_order == sort_order
    &&& row.status == BoardSessionStatus::Unknown
    &&& row.last_seen_event_idx is None
    &&& row.last_event_idx is None
    &&& row.added_at == now
    &&& row.removed_at is None
}

/// Putting one row in place (over the row with its key, or after all rows when
/// its board has none for its thread) keeps the invariant when the row's board
/// exists.
pub proof fn lemma_wf_with_row(old: BoardsState, new: BoardsState, i: int, row: BoardSession)
    requires
        old.wf(),
        new.boards == old.boards,
        (0 <= i < old.sessions.len() && new.sessions == old.sessions.update(i, row) && is_row_of(
            old.sessions[i],
            row.board_id@,
            row.thread_id,
        )) || (i == old.sessions.len() && new.sessions == old.sessions.push(row) && !old.has_row(
            row.board_id@,
            row.thread_id,
        )),
        old.has_board(row.board_id@),
    ensures
        new.wf(),
{
    assert forall|p: int| 0 <= p < new.sessions.len() implies new.has_board(
        #[trigger] new.sessions[p].board_id@,
    ) by {
        if p != i {
            assert(new.sessions[p] == old.sessions[p]);
            assert(old.has_board(old.sessions[p].board_id@));
        }
    }
    assert forall|p: int, q: int|
        0 <= p < new.sessions.len() && 0 <= q < new.sessions.len() && p != q
            implies !is_row_of(
        #[trigger] new.sessions[p],
        #[trigger] new.sessions[q].board_id@,
        new.sessions[q].thread_id,
    ) by {
        if p != i && q != i {
            assert(new.sessions[p] == old.sessions[p]);
            assert(new.sessions[q] == old.sessions[q]);
            assert(!is_row_of(old.sessions[p], old.sessions[q].board_id@, old.sessions[q].thread_id));
        } else if p == i {
            assert(new.sessions[q] == old.sessions[q]);
            if i < old.sessions.len() {
                assert(!is_row_of(old.sessions[i], old.sessions[q].board_id@, old.sessions[q].thread_id));
            } else if is_row_of(row, old.sessions[q].board_id@, old.sessions[q].thread_id) {
                assert(is_row_of(old.sessions[q], row.board_id@, row.thread_id));
            }
        } else {
            assert(new.sessions[p] == old.sessions[p]);
            if i < old.sessions.len() {
                assert(!is_row_of(old.sessions[p], old.sessions[i].board_id@, old.sessions[i].thread_id));
            } else if is_row_of(old.sessions[p], row.board_id@, row.thread_id) {
                assert(is_row_of(old.sessions[p], row.board_id@, row.thread_id));
            }
        }
    }
}

/// A change that keeps every row's board, thread and activity keeps which
/// boards hold a thread as an active session.
pub proof fn lemma_active_rows_kept(old: BoardsState, new: BoardsState, thread: ThreadId)
    requires
        new.sessions.len() == old.sessions.len(),
        forall|i: int|
            0 <= i < old.sessions.len() ==> {
                &&& (#[trigger] new.sessions[i]).board_id == old.sessions[i].board_id
                &&& new.sessions[i].thread_id == old.sessions[i].thread_id
                &&& new.sessions[i].removed_at == old.sessions[i].removed_at
            },
    ensures
        forall|b: Seq<char>| #[trigger] new.has_active_row(b, thread) == old.has_active_row(b, thread),
{
    assert forall|b: Seq<char>| #[trigger] new.has_active_row(b, thread) == old.has_active_row(b, thread) by {
        if new.has_active_row(b, thread) {
            let i = choose|i: int| 0 <= i < new.sessions.len() && is_active_row_of(#[trigger] new.sessions[i], b, thread);
            assert(is_active_row_of(old.sessions[i], b, thread));
        }
        if old.has_active_row(b, thread) {
            let i = choose|i: int| 0 <= i < old.sessions.len() && is_active_row_of(#[trigger] old.sessions[i], b, thread);
            assert(is_active_row_of(new.sessions[i], b, thread));
        }
    }
}

/// Every active session of a board lies at or before the largest position.
pub proof fn lemma_max_active_sort_bounds(sessions: Seq<BoardSession>, board_id: Seq<char>)
    ensures
        forall|i: int|
            0 <= i < sessions.len() && is_active(#[trigger] sessions[i]) && sessions[i].board_id@
                == board_id ==> max_active_sort(sessions, board_id) is Some
                && sessions[i].sort_order <= max_active_sort(sessions, board_id)->0,
    decreases sessions.len(),
{
    if sessions.len() > 0 {
        lemma_max_active_sort_bounds(sessions.drop_last(), board_id);
        assert forall|i: int|
            0 <= i < sessions.len() && is_active(#[trigger] sessions[i]) && sessions[i].board_id@
                == board_id implies max_active_sort(sessions, board_id) is Some
            && sessions[i].sort_order <= max_active_sort(sessions, board_id)->0 by {
            if i < sessions.len() - 1 {
                assert(sessions.drop_last()[i] == sessions[i]);
            }
        }
    }
}

/// A change that keeps every board's id and every row's board and thread
/// keeps the invariant.
pub proof fn lemma_wf_kept(old: BoardsState, new: BoardsState)
    requires
        old.wf(),
        same_board_ids(old.boards, new.boards),
        new.sessions.len() == old.sessions.len(),
        forall|i: int|
            0 <= i < old.sessions.len() ==> {
                &&& (#[trigger] new.sessions[i]).board_id == old.sessions[i].board_id
                &&& new.sessions[i].thread_id == old.sessions[i].thread_id
            },
    ensures
        new.wf(),
{
    assert forall|i: int| 0 <= i < new.sessions.len() implies new.has_board(
        #[trigger] new.sessions[i].board_id@,
    ) by {
        assert(old.sessions[i].board_id == new.sessions[i].board_id);
        assert(old.has_board(old.sessions[i].board_id@));
        let j = choose|j: int|
            0 <= j < old.boards.len() && (#[trigger] old.boards[j]).id@ == old.sessions[i].board_id@;
        assert(new.boards[j].id == old.boards[j].id);
    }
    assert forall|i: int, j: int|
        0 <= i < new.boards.len() && 0 <= j < new.boards.len() && i != j
            implies #[trigger] new.boards[i].id@ != #[trigger] new.boards[j].id@ by {
        assert(new.boards[i].id == old.boards[i].id);
        assert(new.boards[j].id == old.boards[j].id);
        assert(old.boards[i].id@ != old.boards[j].id@);
    }
    assert forall|i: int, j: int|
        0 <= i < new.sessions.len() && 0 <= j < new.sessions.len() && i != j
            implies !is_row_of(
        #[trigger] new.sessions[i],
        #[trigger] new.sessions[j].board_id@,
        new.sessions[j].thread_id,
    ) by {
        assert(!is_row_of(old.sessions[i], old.sessions[j].board_id@, old.sessions[j].thread_id));
    }
}

} // verus!
