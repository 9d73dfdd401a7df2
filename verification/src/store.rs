//! The board store: every board and every board session, with the
//! operations that create, rename, delete and select boards.

use vstd::prelude::*;
use crate::model::{
    Board, BoardError, BoardRow, BoardSession, BoardSessionRow, board_of_row, board_row_error, board_row_of,
    now_epoch_seconds, session_of_row, session_row_error, session_row_of, timestamp_representable,
};
use crate::text::text_eq;
use crate::thread_id::{ThreadId, uuid_text};
use crate::state::{
    BoardsState, board_renamed, board_selecting, board_stamped, boards_changed, is_active,
    is_active_row_of, is_row_of, lemma_max_active_sort_bounds, lemma_wf_kept, lemma_wf_kept_keys,
    max_active_sort, next_sort_order, same_board_ids, session_handed_over, session_readded,
    session_removed, session_retitled, find_thread, move_target, moved_position,
    lemma_find_thread, lemma_board_session_list, session_at_position, board_session_list, board_list, count_board_sessions,
    is_listed_on, ThreadRowChange, thread_row_changed,
    thread_events_exhausted, count_active_of_thread, session_with_activity, board_reselected, session_added, lemma_wf_with_row, session_seen, session_with_status, sessions_changed,
};
use crate::status::{BoardSessionMoveDirection, BoardSessionStatus};
use crate::model::BoardOverview;
use crate::ordering::{
    session_listed_before, board_insertion_point, board_listed_before, position_insertion_point, sort_boards,
    sort_by_position,
};
use crate::text::text_le_exec;

verus! {

/// The boards and board sessions, held in memory.
pub struct StateRuntime {
    boards: Vec<Board>,
    sessions: Vec<BoardSession>,
}

impl View for StateRuntime {
    type V = BoardsState;

    closed spec fn view(&self) -> BoardsState {
        BoardsState { boards: self.boards@, sessions: self.sessions@ }
    }
}

/// Calls `uuid::Uuid::new_v4` and formats the UUID with `to_string`.
/// Claimed: the text is the hyphenated form of some UUID; which one is chance.
/// The random source panics if the operating system cannot supply randomness,
/// a fault of the machine that no argument can rule out.
#[verifier::external_body]
fn new_board_id() -> (r: String)
    ensures
        exists|v: u128| r@ == uuid_text(v),
{
    uuid::Uuid::new_v4().to_string()
}

impl StateRuntime {
    /// A store without boards.
    pub fn new() -> (r: StateRuntime)
        ensures
            r@.wf(),
            r@.boards.len() == 0,
            r@.sessions.len() == 0,
    {
        StateRuntime { boards: Vec::new(), sessions: Vec::new() }
    }

    fn board_index(&self, board_id: &str) -> (r: Option<usize>)
        ensures
            match r {
                Some(i) => i < self@.boards.len() && self@.boards[i as int].id@ == board_id@,
                None => !self@.has_board(board_id@),
            },
    {
        let mut i: usize = 0;
        while i < self.boards.len()
            invariant
                i <= self.boards@.len(),
                forall|j: int| 0 <= j < i ==> (#[trigger] self.boards@[j]).id@ != board_id@,
            decreases self.boards@.len() - i,
        {
            if text_eq(self.boards[i].id.as_str(), board_id) {
                return Some(i);
            }
            i = i + 1;
        }
        None
    }

    /// The board `board_id`, if there is one.
    pub fn get_board(&self, board_id: &str) -> (r: Option<Board>)
        requires
            self@.wf(),
        ensures
            r is Some <==> self@.has_board(board_id@),
            r matches Some(b) ==> b.id@ == board_id@ && self@.boards.contains(b),
    {
        match self.board_index(board_id) {
            Some(i) => Some(self.boards[i].clone()),
            None => None,
        }
    }

    /// Adds the board `id` named `name`, created and updated at `now`, with
    /// no selected thread. Fails, changing nothing, when `id` is taken.
    pub fn create_board_with_id(&mut self, id: String, name: &str, now: i64) -> (r: Result<
        Board,
        BoardError,
    >)
        requires
            old(self)@.wf(),
        ensures
            final(self)@.wf(),
            final(self)@.sessions == old(self)@.sessions,
            r is Ok <==> !old(self)@.has_board(id@),
            match r {
                Ok(b) => {
                    &&& b.id == id
                    &&& b.name@ == name@
                    &&& b.created_at == now
                    &&& b.updated_at == now
                    &&& b.last_selected_thread_id is None
                    &&& final(self)@.boards == old(self)@.boards.push(b)
                },
                Err(e) => e == BoardError::DuplicateBoard(id) && final(self)@ == old(self)@,
            },
    {
        if self.board_index(id.as_str()).is_some() {
            return Err(BoardError::DuplicateBoard(id));
        }
        let board = Board {
            id,
            name: name.to_owned(),
            created_at: now,
            updated_at: now,
            last_selected_thread_id: None,
        };
        let ghost old_state = self@;
        self.boards.push(board.clone());
        proof {
            assert forall|i: int| 0 <= i < self@.sessions.len() implies self@.has_board(
                #[trigger] self@.sessions[i].board_id@,
            ) by {
                let j = choose|j: int|
                    0 <= j < old_state.boards.len() && (#[trigger] old_state.boards[j]).id@
                        == old_state.sessions[i].board_id@;
                assert(self@.boards[j] == old_state.boards[j]);
            }
        }
        Ok(board)
    }

    /// Adds a board named `name` under a fresh random identifier, created now.
    /// It fails only when the drawn identifier is taken already, so a store
    /// that holds no board whose identifier is the text of a UUID never refuses.
    pub fn create_board(&mut self, name: &str) -> (r: Result<Board, BoardError>)
        requires
            old(self)@.wf(),
        ensures
            final(self)@.wf(),
            final(self)@.sessions == old(self)@.sessions,
            match r {
                Ok(b) => {
                    &&& !old(self)@.has_board(b.id@)
                    &&& exists|v: u128| b.id@ == uuid_text(v)
                    &&& b.name@ == name@
                    &&& b.created_at == b.updated_at
                    &&& timestamp_representable(b.created_at)
                    &&& b.last_selected_thread_id is None
                    &&& final(self)@.boards == old(self)@.boards.push(b)
                },
                Err(e) => {
                    &&& final(self)@ == old(self)@
                    &&& (e matches BoardError::DuplicateBoard(id) && old(self)@.has_board(id@)
                        && exists|v: u128| id@ == uuid_text(v))
                    &&& exists|v: u128| old(self)@.has_board(#[trigger] uuid_text(v))
                },
            },
    {
        let id = new_board_id();
        let ghost drawn = choose|v: u128| id@ == uuid_text(v);
        let now = now_epoch_seconds();
        let r = self.create_board_with_id(id, name, now);
        proof {
            if r is Err {
                assert(old(self)@.has_board(uuid_text(drawn)));
            }
        }
        r
    }

    /// Renames the board `board_id` to `name`, stamping it updated at `now`.
    /// Answers whether the board exists; nothing else changes.
    pub fn rename_board_at(&mut self, board_id: &str, name: &str, now: i64) -> (r: bool)
        requires
            old(self)@.wf(),
        ensures
            final(self)@.wf(),
            r == old(self)@.has_board(board_id@),
            final(self)@.sessions == old(self)@.sessions,
            boards_changed(
                old(self)@.boards,
                final(self)@.boards,
                |b: Board| b.id@ == board_id@,
                |o: Board, n: Board| board_renamed(o, n, name@, now),
            ),
    {
        match self.board_index(board_id) {
            Some(i) => {
                let ghost old_state = self@;
                let mut b = self.boards[i].clone();
                b.name = name.to_owned();
                b.updated_at = now;
                self.boards.set(i, b);
                proof {
                    assert forall|j: int| 0 <= j < old_state.boards.len() && j != i implies (#[trigger] old_state.boards[j]).id@ != board_id@ by {
                        assert(old_state.boards[j].id@ != old_state.boards[i as int].id@);
                    }
                    assert(same_board_ids(old_state.boards, self@.boards));
                    lemma_wf_kept(old_state, self@);
                }
                true
            },
            None => false,
        }
    }

    /// Renames the board `board_id` to `name`, stamped with the current time.
    pub fn rename_board(&mut self, board_id: &str, name: &str) -> (r: bool)
        requires
            old(self)@.wf(),
        ensures
            final(self)@.wf(),
            r == old(self)@.has_board(board_id@),
            final(self)@.sessions == old(self)@.sessions,
            exists|now: i64|
                timestamp_representable(now) && boards_changed(
                    old(self)@.boards,
                    final(self)@.boards,
                    |b: Board| b.id@ == board_id@,
                    |o: Board, n: Board| board_renamed(o, n, name@, now),
                ),
    {
        let now = now_epoch_seconds();
        self.rename_board_at(board_id, name, now)
    }

    /// Selects `thread_id` (or no thread) on the board `board_id`, stamping it
    /// updated at `now`. Answers whether the board exists.
    pub fn set_board_last_selected_thread_at(
        &mut self,
        board_id: &str,
        thread_id: Option<ThreadId>,
        now: i64,
    ) -> (r: bool)
        requires
            old(self)@.wf(),
        ensures
            final(self)@.wf(),
            r == old(self)@.has_board(board_id@),
            final(self)@.sessions == old(self)@.sessions,
            boards_changed(
                old(self)@.boards,
                final(self)@.boards,
                |b: Board| b.id@ == board_id@,
                |o: Board, n: Board| n == board_selecting(o, thread_id, now),
            ),
    {
        match self.board_index(board_id) {
            Some(i) => {
                let ghost old_state = self@;
                let mut b = self.boards[i].clone();
                b.last_selected_thread_id = thread_id;
                b.updated_at = now;
                self.boards.set(i, b);
                proof {
                    assert forall|j: int| 0 <= j < old_state.boards.len() && j != i implies (#[trigger] old_state.boards[j]).id@ != board_id@ by {
                        assert(old_state.boards[j].id@ != old_state.boards[i as int].id@);
                    }
                    assert(same_board_ids(old_state.boards, self@.boards));
                    lemma_wf_kept(old_state, self@);
                }
                true
            },
            None => false,
        }
    }

    /// Selects `thread_id` (or no thread) on the board `board_id`, stamped with the current time.
    pub fn set_board_last_selected_thread(&mut self, board_id: &str, thread_id: Option<ThreadId>) -> (r: bool)
        requires
            old(self)@.wf(),
        ensures
            final(self)@.wf(),
            r == old(self)@.has_board(board_id@),
            final(self)@.sessions == old(self)@.sessions,
            exists|now: i64|
                timestamp_representable(now) && boards_changed(
                    old(self)@.boards,
                    final(self)@.boards,
                    |b: Board| b.id@ == board_id@,
                    |o: Board, n: Board| n == board_selecting(o, thread_id, now),
                ),
    {
        let now = now_epoch_seconds();
        self.set_board_last_selected_thread_at(board_id, thread_id, now)
    }

    /// Deletes the board `board_id` together with all its sessions, removed
    /// ones included. Answers whether the board existed.
    pub fn delete_board(&mut self, board_id: &str) -> (r: bool)
        requires
            old(self)@.wf(),
        ensures
            final(self)@.wf(),
            r == old(self)@.has_board(board_id@),
            final(self)@.boards == old(self)@.boards.filter(|b: Board| b.id@ != board_id@),
            final(self)@.sessions == old(self)@.sessions.filter(
                |s: BoardSession| s.board_id@ != board_id@,
            ),
    {
        let ghost old_state = self@;
        let ghost keep_board = |b: Board| b.id@ != board_id@;
        let ghost keep_session = |s: BoardSession| s.board_id@ != board_id@;
        let found = self.board_index(board_id).is_some();
        let mut boards: Vec<Board> = Vec::new();
        let ghost mut board_src: Seq<int> = Seq::empty();
        let mut i: usize = 0;
        while i < self.boards.len()
            invariant
                self@ == old_state,
                old_state.wf(),
                i <= old_state.boards.len(),
                keep_board == (|b: Board| b.id@ != board_id@),
                boards@ == old_state.boards.take(i as int).filter(keep_board),
                board_src.len() == boards@.len(),
                forall|p: int|
                    #![trigger board_src[p]]
                    0 <= p < board_src.len() ==> 0 <= board_src[p] < i && boards@[p]
                        == old_state.boards[board_src[p]],
                forall|p: int, q: int|
                    0 <= p < q < board_src.len() ==> board_src[p] < board_src[q],
                forall|k: int|
                    0 <= k < i && keep_board(old_state.boards[k]) ==> exists|p: int|
                        0 <= p < board_src.len() && #[trigger] board_src[p] == k,
            decreases old_state.boards.len() - i,
        {
            let ghost prev_src = board_src;
            proof {
                old_state.boards.lemma_take_succ_push(i as int);
                old_state.boards.take(i as int).lemma_filter_push(old_state.boards[i as int], keep_board);
            }
            if !text_eq(self.boards[i].id.as_str(), board_id) {
                boards.push(self.boards[i].clone());
                proof {
                    board_src = board_src.push(i as int);
                }
                assert(board_src[board_src.len() - 1] == i);
                assert(keep_board(old_state.boards[i as int]));
            } else {
                assert(!keep_board(old_state.boards[i as int]));
            }
            assert(boards@ == old_state.boards.take(i + 1).filter(keep_board));
            proof {
                assert forall|k: int|
                    0 <= k < i + 1 && keep_board(old_state.boards[k]) implies exists|p: int|
                        0 <= p < board_src.len() && #[trigger] board_src[p] == k by {
                    if k < i {
                        let p = choose|p: int| 0 <= p < prev_src.len() && #[trigger] prev_src[p] == k;
                        assert(board_src[p] == k);
                    } else {
                        assert(board_src[board_src.len() - 1] == k);
                    }
                }
            }
            i = i + 1;
        }
        assert(old_state.boards.take(old_state.boards.len() as int) =~= old_state.boards);
        let mut sessions: Vec<BoardSession> = Vec::new();
        let ghost mut session_src: Seq<int> = Seq::empty();
        let mut i: usize = 0;
        while i < self.sessions.len()
            invariant
                self@ == old_state,
                old_state.wf(),
                i <= old_state.sessions.len(),
                keep_session == (|s: BoardSession| s.board_id@ != board_id@),
                keep_board == (|b: Board| b.id@ != board_id@),
                boards@ == old_state.boards.filter(keep_board),
                forall|p: int|
                    #![trigger board_src[p]]
                    0 <= p < board_src.len() ==> 0 <= board_src[p] < old_state.boards.len() && boards@[p]
                        == old_state.boards[board_src[p]],
                forall|p: int, q: int|
                    0 <= p < q < board_src.len() ==> board_src[p] < board_src[q],
                forall|k: int|
                    0 <= k < old_state.boards.len() && keep_board(old_state.boards[k]) ==> exists|p: int|
                        0 <= p < board_src.len() && #[trigger] board_src[p] == k,
                sessions@ == old_state.sessions.take(i as int).filter(keep_session),
                session_src.len() == sessions@.len(),
                forall|p: int|
                    #![trigger session_src[p]]
                    0 <= p < session_src.len() ==> 0 <= session_src[p] < i && sessions@[p]
                        == old_state.sessions[session_src[p]] && keep_session(sessions@[p]),
                forall|p: int, q: int|
                    0 <= p < q < session_src.len() ==> session_src[p] < session_src[q],
            decreases old_state.sessions.len() - i,
        {
            proof {
                old_state.sessions.lemma_take_succ_push(i as int);
                old_state.sessions.take(i as int).lemma_filter_push(old_state.sessions[i as int], keep_session);
            }
            if !text_eq(self.sessions[i].board_id.as_str(), board_id) {
                sessions.push(self.sessions[i].clone());
                proof {
                    session_src = session_src.push(i as int);
                }
                assert(session_src[session_src.len() - 1] == i);
                assert(keep_session(old_state.sessions[i as int]));
            } else {
                assert(!keep_session(old_state.sessions[i as int]));
            }
            assert(sessions@ == old_state.sessions.take(i + 1).filter(keep_session));
            i = i + 1;
        }
        assert(old_state.sessions.take(old_state.sessions.len() as int) =~= old_state.sessions);
        self.boards = boards;
        self.sessions = sessions;
        proof {
            let new_state = self@;
            assert forall|p: int, q: int|
                0 <= p < new_state.boards.len() && 0 <= q < new_state.boards.len() && p != q
                    implies #[trigger] new_state.boards[p].id@ != #[trigger] new_state.boards[q].id@ by {
                assert(board_src[p] != board_src[q]);
            }
            assert forall|p: int, q: int|
                0 <= p < new_state.sessions.len() && 0 <= q < new_state.sessions.len() && p != q
                    implies !crate::state::is_row_of(
                #[trigger] new_state.sessions[p],
                #[trigger] new_state.sessions[q].board_id@,
                new_state.sessions[q].thread_id,
            ) by {
                assert(session_src[p] != session_src[q]);
            }
            assert forall|p: int| 0 <= p < new_state.sessions.len() implies new_state.has_board(
                #[trigger] new_state.sessions[p].board_id@,
            ) by {
                let k = session_src[p];
                assert(old_state.has_board(old_state.sessions[k].board_id@));
                let j = choose|j: int|
                    0 <= j < old_state.boards.len() && (#[trigger] old_state.boards[j]).id@
                        == old_state.sessions[k].board_id@;
                assert(keep_board(old_state.boards[j]));
                let q = choose|q: int| 0 <= q < board_src.len() && #[trigger] board_src[q] == j;
                assert(new_state.boards[q] == old_state.boards[j]);
            }
        }
        found
    }

    fn active_row_index(&self, board_id: &str, thread_id: ThreadId) -> (r: Option<usize>)
        ensures
            match r {
                Some(i) => i < self@.sessions.len() && is_active_row_of(
                    self@.sessions[i as int],
                    board_id@,
                    thread_id,
                ),
                None => !self@.has_active_row(board_id@, thread_id),
            },
    {
        let mut i: usize = 0;
        while i < self.sessions.len()
            invariant
                i <= self.sessions@.len(),
                forall|j: int|
                    0 <= j < i ==> !is_active_row_of(#[trigger] self.sessions@[j], board_id@, thread_id),
            decreases self.sessions@.len() - i,
        {
            let s = &self.sessions[i];
            if s.removed_at.is_none() && s.thread_id == thread_id && text_eq(s.board_id.as_str(), board_id) {
                return Some(i);
            }
            i = i + 1;
        }
        None
    }

    fn row_index(&self, board_id: &str, thread_id: ThreadId) -> (r: Option<usize>)
        ensures
            match r {
                Some(i) => i < self@.sessions.len() && is_row_of(
                    self@.sessions[i as int],
                    board_id@,
                    thread_id,
                ),
                None => !self@.has_row(board_id@, thread_id),
            },
    {
        let mut i: usize = 0;
        while i < self.sessions.len()
            invariant
                i <= self.sessions@.len(),
                forall|j: int|
                    0 <= j < i ==> !is_row_of(#[trigger] self.sessions@[j], board_id@, thread_id),
            decreases self.sessions@.len() - i,
        {
            let s = &self.sessions[i];
            if s.thread_id == thread_id && text_eq(s.board_id.as_str(), board_id) {
                return Some(i);
            }
            i = i + 1;
        }
        None
    }

    /// Replaces the board at `i` by `b`, which keeps its identifier.
    fn put_board(&mut self, i: usize, b: Board)
        requires
            old(self)@.wf(),
            i < old(self)@.boards.len(),
            b.id == old(self)@.boards[i as int].id,
        ensures
            final(self)@.wf(),
            final(self)@.sessions == old(self)@.sessions,
            final(self)@.boards == old(self)@.boards.update(i as int, b),
    {
        let ghost old_state = self@;
        self.boards.set(i, b);
        proof {
            assert(same_board_ids(old_state.boards, self@.boards));
            lemma_wf_kept(old_state, self@);
        }
    }

    /// Stamps the board `board_id` as updated at `now`.
    fn stamp_board(&mut self, board_id: &str, now: i64)
        requires
            old(self)@.wf(),
        ensures
            final(self)@.wf(),
            final(self)@.sessions == old(self)@.sessions,
            boards_changed(
                old(self)@.boards,
                final(self)@.boards,
                |b: Board| b.id@ == board_id@,
                |o: Board, n: Board| n == board_stamped(o, now),
            ),
    {
        if let Some(i) = self.board_index(board_id) {
            let ghost old_state = self@;
            let mut b = self.boards[i].clone();
            b.updated_at = now;
            self.put_board(i, b);
            proof {
                assert forall|j: int| 0 <= j < old_state.boards.len() && j != i implies (#[trigger] old_state.boards[j]).id@ != board_id@ by {
                    assert(old_state.boards[j].id@ != old_state.boards[i as int].id@);
                }
            }
        }
    }

    /// Takes the active session of `thread_id` off the board `board_id` at
    /// `now`, stamping the board. The row stays, marked removed. Answers
    /// whether there was such a session.
    pub fn remove_board_session_at(&mut self, board_id: &str, thread_id: ThreadId, now: i64) -> (r: bool)
        requires
            old(self)@.wf(),
        ensures
            final(self)@.wf(),
            r == old(self)@.has_active_row(board_id@, thread_id),
            sessions_changed(
                old(self)@.sessions,
                final(self)@.sessions,
                |s: BoardSession| is_active_row_of(s, board_id@, thread_id),
                |o: BoardSession, n: BoardSession| n == session_removed(o, now),
            ),
            boards_changed(
                old(self)@.boards,
                final(self)@.boards,
                |b: Board| r && b.id@ == board_id@,
                |o: Board, n: Board| n == board_stamped(o, now),
            ),
    {
        let ghost old_state = self@;
        match self.active_row_index(board_id, thread_id) {
            Some(i) => {
                let mut row = self.sessions[i].clone();
                row.removed_at = Some(now);
                self.sessions.set(i, row);
                proof {
                    assert forall|j: int| 0 <= j < old_state.sessions.len() && j != i implies !is_active_row_of(#[trigger] old_state.sessions[j], board_id@, thread_id) by {
                        assert(!is_row_of(old_state.sessions[j], old_state.sessions[i as int].board_id@, old_state.sessions[i as int].thread_id));
                    }
                    lemma_wf_kept(old_state, self@);
                }
                self.stamp_board(board_id, now);
                true
            },
            None => {
                assert(self@.sessions =~= old_state.sessions);
                false
            },
        }
    }

    /// Takes the active session of `thread_id` off the board `board_id`, stamped with the current time.
    pub fn remove_board_session(&mut self, board_id: &str, thread_id: ThreadId) -> (r: bool)
        requires
            old(self)@.wf(),
        ensures
            final(self)@.wf(),
            r == old(self)@.has_active_row(board_id@, thread_id),
            exists|now: i64|
                timestamp_representable(now) && sessions_changed(
                    old(self)@.sessions,
                    final(self)@.sessions,
                    |s: BoardSession| is_active_row_of(s, board_id@, thread_id),
                    |o: BoardSession, n: BoardSession| n == session_removed(o, now),
                ) && boards_changed(
                    old(self)@.boards,
                    final(self)@.boards,
                    |b: Board| r && b.id@ == board_id@,
                    |o: Board, n: Board| n == board_stamped(o, now),
                ),
    {
        let now = now_epoch_seconds();
        self.remove_board_session_at(board_id, thread_id, now)
    }

    /// Sets the title of the active session of `thread_id` on the board
    /// `board_id`. The board is not stamped. Answers whether there was such a session.
    pub fn update_board_session_title_snapshot(&mut self, board_id: &str, thread_id: ThreadId, title_snapshot: &str) -> (r: bool)
        requires
            old(self)@.wf(),
        ensures
            final(self)@.wf(),
            r == old(self)@.has_active_row(board_id@, thread_id),
            sessions_changed(
                old(self)@.sessions,
                final(self)@.sessions,
                |s: BoardSession| is_active_row_of(s, board_id@, thread_id),
                |o: BoardSession, n: BoardSession| session_retitled(o, n, title_snapshot@),
            ),
            final(self)@.boards == old(self)@.boards,
    {
        let ghost old_state = self@;
        match self.active_row_index(board_id, thread_id) {
            Some(i) => {
                let mut row = self.sessions[i].clone();
                row.title_snapshot = title_snapshot.to_owned();
                self.sessions.set(i, row);
                proof {
                    assert forall|j: int| 0 <= j < old_state.sessions.len() && j != i implies !is_active_row_of(#[trigger] old_state.sessions[j], board_id@, thread_id) by {
                        assert(!is_row_of(old_state.sessions[j], old_state.sessions[i as int].board_id@, old_state.sessions[i as int].thread_id));
                    }
                    lemma_wf_kept(old_state, self@);
                }
                true
            },
            None => {
                assert(self@.sessions =~= old_state.sessions);
                false
            },
        }
    }

    /// Sets the status of the active session of `thread_id` on the board
    /// `board_id`, stamping the board at `now`. Answers whether there was such a session.
    pub fn set_board_session_status_at(&mut self, board_id: &str, thread_id: ThreadId, status: BoardSessionStatus, now: i64) -> (r: bool)
        requires
            old(self)@.wf(),
        ensures
            final(self)@.wf(),
            r == old(self)@.has_active_row(board_id@, thread_id),
            sessions_changed(
                old(self)@.sessions,
                final(self)@.sessions,
                |s: BoardSession| is_active_row_of(s, board_id@, thread_id),
                |o: BoardSession, n: BoardSession| n == session_with_status(o, status),
            ),
            boards_changed(
                old(self)@.boards,
                final(self)@.boards,
                |b: Board| r && b.id@ == board_id@,
                |o: Board, n: Board| n == board_stamped(o, now),
            ),
    {
        let ghost old_state = self@;
        match self.active_row_index(board_id, thread_id) {
            Some(i) => {
                let mut row = self.sessions[i].clone();
                row.status = status;
                self.sessions.set(i, row);
                proof {
                    assert forall|j: int| 0 <= j < old_state.sessions.len() && j != i implies !is_active_row_of(#[trigger] old_state.sessions[j], board_id@, thread_id) by {
                        assert(!is_row_of(old_state.sessions[j], old_state.sessions[i as int].board_id@, old_state.sessions[i as int].thread_id));
                    }
                    lemma_wf_kept(old_state, self@);
                }
                self.stamp_board(board_id, now);
                true
            },
            None => {
                assert(self@.sessions =~= old_state.sessions);
                false
            },
        }
    }

    /// Sets the status of the active session of `thread_id` on the board `board_id`, stamped with the current time.
    pub fn set_board_session_status(&mut self, board_id: &str, thread_id: ThreadId, status: BoardSessionStatus) -> (r: bool)
        requires
            old(self)@.wf(),
        ensures
            final(self)@.wf(),
            r == old(self)@.has_active_row(board_id@, thread_id),
            exists|now: i64|
                timestamp_representable(now) && sessions_changed(
                    old(self)@.sessions,
                    final(self)@.sessions,
                    |s: BoardSession| is_active_row_of(s, board_id@, thread_id),
                    |o: BoardSession, n: BoardSession| n == session_with_status(o, status),
                ) && boards_changed(
                    old(self)@.boards,
                    final(self)@.boards,
                    |b: Board| r && b.id@ == board_id@,
                    |o: Board, n: Board| n == board_stamped(o, now),
                ),
    {
        let now = now_epoch_seconds();
        self.set_board_session_status_at(board_id, thread_id, status, now)
    }

    /// Marks the active session of `thread_id` on the board `board_id` as seen
    /// (see `session_seen`), stamping the board at `now`. Answers whether there was such a session.
    pub fn mark_board_session_seen_at(&mut self, board_id: &str, thread_id: ThreadId, now: i64) -> (r: bool)
        requires
            old(self)@.wf(),
        ensures
            final(self)@.wf(),
            r == old(self)@.has_active_row(board_id@, thread_id),
            sessions_changed(
                old(self)@.sessions,
                final(self)@.sessions,
                |s: BoardSession| is_active_row_of(s, board_id@, thread_id),
                |o: BoardSession, n: BoardSession| n == session_seen(o),
            ),
            boards_changed(
                old(self)@.boards,
                final(self)@.boards,
                |b: Board| r && b.id@ == board_id@,
                |o: Board, n: Board| n == board_stamped(o, now),
            ),
    {
        let ghost old_state = self@;
        match self.active_row_index(board_id, thread_id) {
            Some(i) => {
                let mut row = self.sessions[i].clone();
                if !(row.status == BoardSessionStatus::Running || row.status == BoardSessionStatus::WaitingApproval
                    || row.status == BoardSessionStatus::Errored) {
                    row.status = BoardSessionStatus::Seen;
                }
                if row.last_event_idx.is_some() {
                    row.last_seen_event_idx = row.last_event_idx;
                }
                self.sessions.set(i, row);
                proof {
                    assert forall|j: int| 0 <= j < old_state.sessions.len() && j != i implies !is_active_row_of(#[trigger] old_state.sessions[j], board_id@, thread_id) by {
                        assert(!is_row_of(old_state.sessions[j], old_state.sessions[i as int].board_id@, old_state.sessions[i as int].thread_id));
                    }
                    lemma_wf_kept(old_state, self@);
                }
                self.stamp_board(board_id, now);
                true
            },
            None => {
                assert(self@.sessions =~= old_state.sessions);
                false
            },
        }
    }

    /// Marks the active session of `thread_id` on the board `board_id` as seen, stamped with the current time.
    pub fn mark_board_session_seen(&mut self, board_id: &str, thread_id: ThreadId) -> (r: bool)
        requires
            old(self)@.wf(),
        ensures
            final(self)@.wf(),
            r == old(self)@.has_active_row(board_id@, thread_id),
            exists|now: i64|
                timestamp_representable(now) && sessions_changed(
                    old(self)@.sessions,
                    final(self)@.sessions,
                    |s: BoardSession| is_active_row_of(s, board_id@, thread_id),
                    |o: BoardSession, n: BoardSession| n == session_seen(o),
                ) && boards_changed(
                    old(self)@.boards,
                    final(self)@.boards,
                    |b: Board| r && b.id@ == board_id@,
                    |o: Board, n: Board| n == board_stamped(o, now),
                ),
    {
        let now = now_epoch_seconds();
        self.mark_board_session_seen_at(board_id, thread_id, now)
    }

    /// The position after the last active session of the board `board_id`,
    /// when it fits in an `i64`.
    fn next_position(&self, board_id: &str) -> (r: Option<i64>)
        ensures
            r is None <==> next_sort_order(self@.sessions, board_id@) > i64::MAX,
            r matches Some(n) ==> n as int == next_sort_order(self@.sessions, board_id@),
    {
        let mut cur: Option<i64> = None;
        let mut i: usize = 0;
        while i < self.sessions.len()
            invariant
                i <= self@.sessions.len(),
                match max_active_sort(self@.sessions.take(i as int), board_id@) {
                    Some(m) => cur is Some && cur->0 as int == m,
                    None => cur is None,
                },
            decreases self@.sessions.len() - i,
        {
            proof {
                assert(self@.sessions.take(i + 1).drop_last() =~= self@.sessions.take(i as int));
                assert(self@.sessions.take(i + 1).last() == self@.sessions[i as int]);
            }
            let s = &self.sessions[i];
            if s.removed_at.is_none() && text_eq(s.board_id.as_str(), board_id) {
                cur = match cur {
                    Some(m) => Some(if m < s.sort_order { s.sort_order } else { m }),
                    None => Some(s.sort_order),
                };
            }
            i = i + 1;
        }
        assert(self@.sessions.take(self@.sessions.len() as int) =~= self@.sessions);
        match cur {
            Some(m) => m.checked_add(1),
            None => Some(0),
        }
    }

    /// Puts `thread_id` on the board `board_id` at `now`, titled
    /// `title_snapshot`, after the board's last active session, with status
    /// unknown; a row the board had for the thread, removed or not, is taken
    /// up again (its event indices kept). The board is stamped and the thread
    /// selected. Fails, changing nothing, when the next position does not fit
    /// in an `i64` or when there is no such board.
    pub fn add_board_session_at(
        &mut self,
        board_id: &str,
        thread_id: ThreadId,
        title_snapshot: &str,
        now: i64,
    ) -> (r: Result<(), BoardError>)
        requires
            old(self)@.wf(),
        ensures
            final(self)@.wf(),
            match r {
                Err(e) => final(self)@ == old(self)@ && if next_sort_order(
                    old(self)@.sessions,
                    board_id@,
                ) > i64::MAX {
                    e == BoardError::SortOrderOverflow
                } else {
                    !old(self)@.has_board(board_id@) && (e matches BoardError::BoardNotFound(b) && b@
                        == board_id@)
                },
                Ok(()) => {
                    let next = next_sort_order(old(self)@.sessions, board_id@);
                    &&& next <= i64::MAX
                    &&& old(self)@.has_board(board_id@)
                    &&& if old(self)@.has_row(board_id@, thread_id) {
                        sessions_changed(
                            old(self)@.sessions,
                            final(self)@.sessions,
                            |s: BoardSession| is_row_of(s, board_id@, thread_id),
                            |o: BoardSession, n: BoardSession|
                                session_readded(o, n, title_snapshot@, next, now),
                        )
                    } else {
                        &&& final(self)@.sessions.len() == old(self)@.sessions.len() + 1
                        &&& final(self)@.sessions.drop_last() == old(self)@.sessions
                        &&& session_added(
                            final(self)@.sessions.last(),
                            board_id@,
                            thread_id,
                            title_snapshot@,
                            next,
                            now,
                        )
                    }
                    &&& boards_changed(
                        old(self)@.boards,
                        final(self)@.boards,
                        |b: Board| b.id@ == board_id@,
                        |o: Board, n: Board| n == board_selecting(o, Some(thread_id), now),
                    )
                },
            },
    {
        let ghost old_state = self@;
        let next = match self.next_position(board_id) {
            Some(n) => n,
            None => {
                return Err(BoardError::SortOrderOverflow);
            },
        };
        let bi = match self.board_index(board_id) {
            Some(bi) => bi,
            None => {
                return Err(BoardError::BoardNotFound(board_id.to_owned()));
            },
        };
        proof {
            lemma_max_active_sort_bounds(old_state.sessions, board_id@);
        }
        match self.row_index(board_id, thread_id) {
            Some(i) => {
                let mut row = self.sessions[i].clone();
                row.title_snapshot = title_snapshot.to_owned();
                row.sort_order = next;
                row.status = BoardSessionStatus::Unknown;
                row.added_at = now;
                row.removed_at = None;
                let ghost placed = row;
                self.sessions.set(i, row);
                proof {
                    assert(old_state.has_board(placed.board_id@));
                    lemma_wf_with_row(old_state, self@, i as int, placed);
                    assert forall|j: int| 0 <= j < old_state.sessions.len() && j != i implies !is_row_of(#[trigger] old_state.sessions[j], board_id@, thread_id) by {
                        assert(!is_row_of(old_state.sessions[j], old_state.sessions[i as int].board_id@, old_state.sessions[i as int].thread_id));
                    }
                }
            },
            None => {
                let row = BoardSession {
                    board_id: board_id.to_owned(),
                    thread_id,
                    title_snapshot: title_snapshot.to_owned(),
                    sort_order: next,
                    status: BoardSessionStatus::Unknown,
                    last_seen_event_idx: None,
                    last_event_idx: None,
                    added_at: now,
                    removed_at: None,
                };
                let ghost placed = row;
                self.sessions.push(row);
                proof {
                    assert(old_state.has_board(placed.board_id@));
                    lemma_wf_with_row(old_state, self@, old_state.sessions.len() as int, placed);
                    assert(self@.sessions.drop_last() =~= old_state.sessions);
                }
            },
        }
        let ghost mid = self@;
        let mut b = self.boards[bi].clone();
        b.updated_at = now;
        b.last_selected_thread_id = Some(thread_id);
        self.put_board(bi, b);
        proof {
            assert forall|j: int| 0 <= j < old_state.boards.len() && j != bi implies (#[trigger] old_state.boards[j]).id@ != board_id@ by {
                assert(old_state.boards[j].id@ != old_state.boards[bi as int].id@);
            }
        }
        Ok(())
    }

    /// Puts `thread_id` on the board `board_id`, titled `title_snapshot`, stamped with the current time.
    pub fn add_board_session(&mut self, board_id: &str, thread_id: ThreadId, title_snapshot: &str) -> (r: Result<(), BoardError>)
        requires
            old(self)@.wf(),
        ensures
            final(self)@.wf(),
            match r {
                Err(e) => final(self)@ == old(self)@ && if next_sort_order(
                    old(self)@.sessions,
                    board_id@,
                ) > i64::MAX {
                    e == BoardError::SortOrderOverflow
                } else {
                    !old(self)@.has_board(board_id@) && (e matches BoardError::BoardNotFound(b) && b@
                        == board_id@)
                },
                Ok(()) => exists|now: i64| #![trigger timestamp_representable(now)] {
                    let next = next_sort_order(old(self)@.sessions, board_id@);
                    &&& timestamp_representable(now)
                    &&& next <= i64::MAX
                    &&& old(self)@.has_board(board_id@)
                    &&& if old(self)@.has_row(board_id@, thread_id) {
                        sessions_changed(
                            old(self)@.sessions,
                            final(self)@.sessions,
                            |s: BoardSession| is_row_of(s, board_id@, thread_id),
                            |o: BoardSession, n: BoardSession|
                                session_readded(o, n, title_snapshot@, next, now),
                        )
                    } else {
                        &&& final(self)@.sessions.len() == old(self)@.sessions.len() + 1
                        &&& final(self)@.sessions.drop_last() == old(self)@.sessions
                        &&& session_added(
                            final(self)@.sessions.last(),
                            board_id@,
                            thread_id,
                            title_snapshot@,
                            next,
                            now,
                        )
                    }
                    &&& boards_changed(
                        old(self)@.boards,
                        final(self)@.boards,
                        |b: Board| b.id@ == board_id@,
                        |o: Board, n: Board| n == board_selecting(o, Some(thread_id), now),
                    )
                },
            },
    {
        let now = now_epoch_seconds();
        self.add_board_session_at(board_id, thread_id, title_snapshot, now)
    }

    /// Hands the active session of `old_thread_id` on the board `board_id`
    /// over to `new_thread_id`: same place, title `title_snapshot`, status
    /// unknown, no events; the board is stamped at `now` and, if it had
    /// `old_thread_id` selected, selects `new_thread_id`. Answers whether there
    /// was such a session. Fails, changing nothing, when the board already has
    /// a row for `new_thread_id`.
    pub fn replace_board_session_thread_id_at(
        &mut self,
        board_id: &str,
        old_thread_id: ThreadId,
        new_thread_id: ThreadId,
        title_snapshot: &str,
        now: i64,
    ) -> (r: Result<bool, BoardError>)
        requires
            old(self)@.wf(),
        ensures
            final(self)@.wf(),
            match r {
                Ok(found) => {
                    &&& found == old(self)@.has_active_row(board_id@, old_thread_id)
                    &&& sessions_changed(
                        old(self)@.sessions,
                        final(self)@.sessions,
                        |s: BoardSession| found && is_active_row_of(s, board_id@, old_thread_id),
                        |o: BoardSession, n: BoardSession|
                            session_handed_over(o, n, new_thread_id, title_snapshot@),
                    )
                    &&& boards_changed(
                        old(self)@.boards,
                        final(self)@.boards,
                        |b: Board| found && b.id@ == board_id@,
                        |o: Board, n: Board|
                            n == board_reselected(o, old_thread_id, new_thread_id, now),
                    )
                    &&& found && old_thread_id != new_thread_id ==> !old(self)@.has_row(
                        board_id@,
                        new_thread_id,
                    )
                },
                Err(e) => {
                    &&& final(self)@ == old(self)@
                    &&& old(self)@.has_active_row(board_id@, old_thread_id)
                    &&& old_thread_id != new_thread_id
                    &&& old(self)@.has_row(board_id@, new_thread_id)
                    &&& e matches BoardError::SessionConflict(b, t) && b@ == board_id@ && t == new_thread_id
                },
            },
    {
        let ghost old_state = self@;
        let i = match self.active_row_index(board_id, old_thread_id) {
            Some(i) => i,
            None => {
                assert(self@.sessions =~= old_state.sessions);
                return Ok(false);
            },
        };
        if old_thread_id != new_thread_id && self.row_index(board_id, new_thread_id).is_some() {
            return Err(BoardError::SessionConflict(board_id.to_owned(), new_thread_id));
        }
        let mut row = self.sessions[i].clone();
        row.thread_id = new_thread_id;
        row.title_snapshot = title_snapshot.to_owned();
        row.status = BoardSessionStatus::Unknown;
        row.last_seen_event_idx = None;
        row.last_event_idx = None;
        self.sessions.set(i, row);
        proof {
            let new_state = self@;
            assert forall|j: int| 0 <= j < old_state.sessions.len() && j != i implies !is_active_row_of(#[trigger] old_state.sessions[j], board_id@, old_thread_id) by {
                assert(!is_row_of(old_state.sessions[j], old_state.sessions[i as int].board_id@, old_state.sessions[i as int].thread_id));
            }
            assert forall|p: int, q: int|
                0 <= p < new_state.sessions.len() && 0 <= q < new_state.sessions.len() && p != q
                    implies !is_row_of(
                #[trigger] new_state.sessions[p],
                #[trigger] new_state.sessions[q].board_id@,
                new_state.sessions[q].thread_id,
            ) by {
                if p != i && q != i {
                    assert(!is_row_of(old_state.sessions[p], old_state.sessions[q].board_id@, old_state.sessions[q].thread_id));
                } else if old_thread_id == new_thread_id {
                    assert(!is_row_of(old_state.sessions[p], old_state.sessions[q].board_id@, old_state.sessions[q].thread_id));
                } else if p == i {
                    if is_row_of(new_state.sessions[p], new_state.sessions[q].board_id@, new_state.sessions[q].thread_id) {
                        assert(is_row_of(old_state.sessions[q], board_id@, new_thread_id));
                    }
                } else {
                    if is_row_of(new_state.sessions[p], new_state.sessions[q].board_id@, new_state.sessions[q].thread_id) {
                        assert(is_row_of(old_state.sessions[p], board_id@, new_thread_id));
                    }
                }
            }
            lemma_wf_kept_keys(old_state, new_state);
        }
        let bi = match self.board_index(board_id) {
            Some(bi) => bi,
            None => {
                proof {
                    assert(self@.has_board(self@.sessions[i as int].board_id@));
                }
                return Ok(true);
            },
        };
        let mut b = self.boards[bi].clone();
        if b.last_selected_thread_id == Some(old_thread_id) {
            b.last_selected_thread_id = Some(new_thread_id);
        }
        b.updated_at = now;
        self.put_board(bi, b);
        proof {
            assert forall|j: int| 0 <= j < old_state.boards.len() && j != bi implies (#[trigger] old_state.boards[j]).id@ != board_id@ by {
                assert(old_state.boards[j].id@ != old_state.boards[bi as int].id@);
            }
        }
        Ok(true)
    }

    /// Hands the active session of `old_thread_id` on the board `board_id` over
    /// to `new_thread_id`, stamped with the current time.
    pub fn replace_board_session_thread_id(
        &mut self,
        board_id: &str,
        old_thread_id: ThreadId,
        new_thread_id: ThreadId,
        title_snapshot: &str,
    ) -> (r: Result<bool, BoardError>)
        requires
            old(self)@.wf(),
        ensures
            final(self)@.wf(),
            exists|now: i64| #![trigger timestamp_representable(now)] timestamp_representable(now) &&
            match r {
                Ok(found) => {
                    &&& found == old(self)@.has_active_row(board_id@, old_thread_id)
                    &&& sessions_changed(
                        old(self)@.sessions,
                        final(self)@.sessions,
                        |s: BoardSession| found && is_active_row_of(s, board_id@, old_thread_id),
                        |o: BoardSession, n: BoardSession|
                            session_handed_over(o, n, new_thread_id, title_snapshot@),
                    )
                    &&& boards_changed(
                        old(self)@.boards,
                        final(self)@.boards,
                        |b: Board| found && b.id@ == board_id@,
                        |o: Board, n: Board|
                            n == board_reselected(o, old_thread_id, new_thread_id, now),
                    )
                    &&& found && old_thread_id != new_thread_id ==> !old(self)@.has_row(
                        board_id@,
                        new_thread_id,
                    )
                },
                Err(e) => {
                    &&& final(self)@ == old(self)@
                    &&& old(self)@.has_active_row(board_id@, old_thread_id)
                    &&& old_thread_id != new_thread_id
                    &&& old(self)@.has_row(board_id@, new_thread_id)
                    &&& e matches BoardError::SessionConflict(b, t) && b@ == board_id@ && t == new_thread_id
                },
            },
    {
        let now = now_epoch_seconds();
        self.replace_board_session_thread_id_at(board_id, old_thread_id, new_thread_id, title_snapshot, now)
    }

    /// Applies `change` to every active session of `thread_id`, answering how many there were.
    fn change_thread_rows(&mut self, thread_id: ThreadId, change: ThreadRowChange) -> (r: usize)
        requires
            old(self)@.wf(),
            change is Activity ==> !thread_events_exhausted(old(self)@.sessions, thread_id),
        ensures
            final(self)@.wf(),
            final(self)@.boards == old(self)@.boards,
            r == count_active_of_thread(old(self)@.sessions, thread_id),
            sessions_changed(
                old(self)@.sessions,
                final(self)@.sessions,
                |s: BoardSession| is_active(s) && s.thread_id == thread_id,
                |o: BoardSession, n: BoardSession| thread_row_changed(o, n, change),
            ),
    {
        let ghost old_state = self@;
        let mut count: usize = 0;
        let mut i: usize = 0;
        while i < self.sessions.len()
            invariant
                old_state.wf(),
                change is Activity ==> !thread_events_exhausted(old_state.sessions, thread_id),
                self@.boards == old_state.boards,
                self@.sessions.len() == old_state.sessions.len(),
                i <= old_state.sessions.len(),
                count == count_active_of_thread(old_state.sessions.take(i as int), thread_id),
                count <= i,
                forall|j: int|
                    #![trigger self@.sessions[j]]
                    0 <= j < i ==> if is_active(old_state.sessions[j]) && old_state.sessions[j].thread_id == thread_id {
                        thread_row_changed(old_state.sessions[j], self@.sessions[j], change)
                    } else {
                        self@.sessions[j] == old_state.sessions[j]
                    },
                forall|j: int| #![trigger self@.sessions[j]] i <= j < old_state.sessions.len() ==> self@.sessions[j] == old_state.sessions[j],
            decreases old_state.sessions.len() - i,
        {
            proof {
                assert(old_state.sessions.take(i + 1).drop_last() =~= old_state.sessions.take(i as int));
                assert(old_state.sessions.take(i + 1).last() == old_state.sessions[i as int]);
            }
            if self.sessions[i].removed_at.is_none() && self.sessions[i].thread_id == thread_id {
                let mut row = self.sessions[i].clone();
                match &change {
                    ThreadRowChange::Title(t) => {
                        row.title_snapshot = t.clone();
                    },
                    ThreadRowChange::Status(s) => {
                        row.status = *s;
                    },
                    ThreadRowChange::Activity(s) => {
                        row.status = *s;
                        let next = match row.last_event_idx {
                            Some(k) => {
                                proof {
                                    if k == i64::MAX {
                                        assert(thread_events_exhausted(old_state.sessions, thread_id));
                                    }
                                }
                                k + 1
                            },
                            None => 0,
                        };
                        row.last_event_idx = Some(next);
                    },
                }
                self.sessions.set(i, row);
                count = count + 1;
            }
            i = i + 1;
        }
        proof {
            assert(old_state.sessions.take(old_state.sessions.len() as int) =~= old_state.sessions);
            lemma_wf_kept(old_state, self@);
        }
        count
    }

    /// Stamps at `now` every board that holds `thread_id` as an active session.
    fn stamp_boards_of_thread(&mut self, thread_id: ThreadId, now: i64)
        requires
            old(self)@.wf(),
        ensures
            final(self)@.wf(),
            final(self)@.sessions == old(self)@.sessions,
            boards_changed(
                old(self)@.boards,
                final(self)@.boards,
                |b: Board| old(self)@.has_active_row(b.id@, thread_id),
                |o: Board, n: Board| n == board_stamped(o, now),
            ),
    {
        let ghost old_state = self@;
        let mut i: usize = 0;
        while i < self.boards.len()
            invariant
                old_state.wf(),
                self@.sessions == old_state.sessions,
                self@.boards.len() == old_state.boards.len(),
                i <= old_state.boards.len(),
                same_board_ids(old_state.boards, self@.boards),
                forall|j: int|
                    #![trigger self@.boards[j]]
                    0 <= j < i ==> if old_state.has_active_row(old_state.boards[j].id@, thread_id) {
                        self@.boards[j] == board_stamped(old_state.boards[j], now)
                    } else {
                        self@.boards[j] == old_state.boards[j]
                    },
                forall|j: int| #![trigger self@.boards[j]] i <= j < old_state.boards.len() ==> self@.boards[j] == old_state.boards[j],
            decreases old_state.boards.len() - i,
        {
            if self.active_row_index(self.boards[i].id.as_str(), thread_id).is_some() {
                let mut b = self.boards[i].clone();
                b.updated_at = now;
                self.boards.set(i, b);
            }
            i = i + 1;
        }
        proof {
            lemma_wf_kept(old_state, self@);
        }
    }

    /// Sets the title of every active session of `thread_id`, on every board,
    /// stamping those boards at `now`. Answers how many sessions there were.
    pub fn update_thread_board_session_title_snapshot_at(&mut self, thread_id: ThreadId, title_snapshot: &str, now: i64) -> (r: u64)
        requires
            old(self)@.wf(),
        ensures
            final(self)@.wf(),
            r == count_active_of_thread(old(self)@.sessions, thread_id),
            sessions_changed(
                old(self)@.sessions,
                final(self)@.sessions,
                |s: BoardSession| is_active(s) && s.thread_id == thread_id,
                |o: BoardSession, n: BoardSession| session_retitled(o, n, title_snapshot@),
            ),
            boards_changed(
                old(self)@.boards,
                final(self)@.boards,
                |b: Board| old(self)@.has_active_row(b.id@, thread_id),
                |o: Board, n: Board| n == board_stamped(o, now),
            ),
    {
        let ghost old_state = self@;
        let n = self.change_thread_rows(thread_id, ThreadRowChange::Title(title_snapshot.to_owned()));
        let ghost mid = self@;
        proof { crate::state::lemma_active_rows_kept(old_state, mid, thread_id); }
        self.stamp_boards_of_thread(thread_id, now);
        n as u64
    }

    /// Sets the title of every active session of `thread_id`, stamped with the current time.
    pub fn update_thread_board_session_title_snapshot(&mut self, thread_id: ThreadId, title_snapshot: &str) -> (r: u64)
        requires
            old(self)@.wf(),
        ensures
            final(self)@.wf(),
            r == count_active_of_thread(old(self)@.sessions, thread_id),
            exists|now: i64|
                timestamp_representable(now) && sessions_changed(
                    old(self)@.sessions,
                    final(self)@.sessions,
                    |s: BoardSession| is_active(s) && s.thread_id == thread_id,
                    |o: BoardSession, n: BoardSession| session_retitled(o, n, title_snapshot@),
                ) && boards_changed(
                    old(self)@.boards,
                    final(self)@.boards,
                    |b: Board| old(self)@.has_active_row(b.id@, thread_id),
                    |o: Board, n: Board| n == board_stamped(o, now),
                ),
    {
        let now = now_epoch_seconds();
        self.update_thread_board_session_title_snapshot_at(thread_id, title_snapshot, now)
    }

    /// Sets the status of every active session of `thread_id`, on every board,
    /// stamping those boards at `now`. Answers how many sessions there were.
    pub fn set_thread_board_sessions_status_at(&mut self, thread_id: ThreadId, status: BoardSessionStatus, now: i64) -> (r: u64)
        requires
            old(self)@.wf(),
        ensures
            final(self)@.wf(),
            r == count_active_of_thread(old(self)@.sessions, thread_id),
            sessions_changed(
                old(self)@.sessions,
                final(self)@.sessions,
                |s: BoardSession| is_active(s) && s.thread_id == thread_id,
                |o: BoardSession, n: BoardSession| n == session_with_status(o, status),
            ),
            boards_changed(
                old(self)@.boards,
                final(self)@.boards,
                |b: Board| old(self)@.has_active_row(b.id@, thread_id),
                |o: Board, n: Board| n == board_stamped(o, now),
            ),
    {
        let ghost old_state = self@;
        let n = self.change_thread_rows(thread_id, ThreadRowChange::Status(status));
        let ghost mid = self@;
        proof { crate::state::lemma_active_rows_kept(old_state, mid, thread_id); }
        self.stamp_boards_of_thread(thread_id, now);
        n as u64
    }

    /// Sets the status of every active session of `thread_id`, stamped with the current time.
    pub fn set_thread_board_sessions_status(&mut self, thread_id: ThreadId, status: BoardSessionStatus) -> (r: u64)
        requires
            old(self)@.wf(),
        ensures
            final(self)@.wf(),
            r == count_active_of_thread(old(self)@.sessions, thread_id),
            exists|now: i64|
                timestamp_representable(now) && sessions_changed(
                    old(self)@.sessions,
                    final(self)@.sessions,
                    |s: BoardSession| is_active(s) && s.thread_id == thread_id,
                    |o: BoardSession, n: BoardSession| n == session_with_status(o, status),
                ) && boards_changed(
                    old(self)@.boards,
                    final(self)@.boards,
                    |b: Board| old(self)@.has_active_row(b.id@, thread_id),
                    |o: Board, n: Board| n == board_stamped(o, now),
                ),
    {
        let now = now_epoch_seconds();
        self.set_thread_board_sessions_status_at(thread_id, status, now)
    }

    /// Records one more event on every active session of `thread_id`, on every
    /// board, which left it in `status`; stamps those boards at `now`. Answers
    /// how many sessions there were. Fails, changing nothing, when the index of
    /// the next event of one of them does not fit in an `i64`.
    pub fn record_thread_board_sessions_activity_at(&mut self, thread_id: ThreadId, status: BoardSessionStatus, now: i64) -> (r: Result<u64, BoardError>)
        requires
            old(self)@.wf(),
        ensures
            final(self)@.wf(),
            r is Err <==> thread_events_exhausted(old(self)@.sessions, thread_id),
            match r {
                Ok(n) => {
                    &&& n == count_active_of_thread(old(self)@.sessions, thread_id)
                    &&& sessions_changed(
                        old(self)@.sessions,
                        final(self)@.sessions,
                        |s: BoardSession| is_active(s) && s.thread_id == thread_id,
                        |o: BoardSession, n: BoardSession| n == session_with_activity(o, status),
                    )
                    &&& boards_changed(
                        old(self)@.boards,
                        final(self)@.boards,
                        |b: Board| old(self)@.has_active_row(b.id@, thread_id),
                        |o: Board, n: Board| n == board_stamped(o, now),
                    )
                },
                Err(e) => e == BoardError::EventIndexOverflow && final(self)@ == old(self)@,
            },
    {
        let mut i: usize = 0;
        while i < self.sessions.len()
            invariant
                self@ == old(self)@,
                old(self)@.wf(),
                i <= self@.sessions.len(),
                forall|j: int|
                    0 <= j < i ==> !(is_active(#[trigger] self@.sessions[j]) && self@.sessions[j].thread_id == thread_id
                        && self@.sessions[j].last_event_idx == Some(i64::MAX)),
            decreases self@.sessions.len() - i,
        {
            let s = &self.sessions[i];
            if s.removed_at.is_none() && s.thread_id == thread_id && s.last_event_idx == Some(i64::MAX) {
                return Err(BoardError::EventIndexOverflow);
            }
            i = i + 1;
        }
        let ghost old_state = self@;
        let n = self.change_thread_rows(thread_id, ThreadRowChange::Activity(status));
        let ghost mid = self@;
        proof { crate::state::lemma_active_rows_kept(old_state, mid, thread_id); }
        self.stamp_boards_of_thread(thread_id, now);
        Ok(n as u64)
    }

    /// Records one more event on every active session of `thread_id`, stamped with the current time.
    pub fn record_thread_board_sessions_activity(&mut self, thread_id: ThreadId, status: BoardSessionStatus) -> (r: Result<u64, BoardError>)
        requires
            old(self)@.wf(),
        ensures
            final(self)@.wf(),
            r is Err <==> thread_events_exhausted(old(self)@.sessions, thread_id),
            match r {
                Ok(n) => exists|now: i64| #![trigger timestamp_representable(now)] {
                    &&& timestamp_representable(now)
                    &&& n == count_active_of_thread(old(self)@.sessions, thread_id)
                    &&& sessions_changed(
                        old(self)@.sessions,
                        final(self)@.sessions,
                        |s: BoardSession| is_active(s) && s.thread_id == thread_id,
                        |o: BoardSession, n: BoardSession| n == session_with_activity(o, status),
                    )
                    &&& boards_changed(
                        old(self)@.boards,
                        final(self)@.boards,
                        |b: Board| old(self)@.has_active_row(b.id@, thread_id),
                        |o: Board, n: Board| n == board_stamped(o, now),
                    )
                },
                Err(e) => e == BoardError::EventIndexOverflow && final(self)@ == old(self)@,
            },
    {
        let now = now_epoch_seconds();
        self.record_thread_board_sessions_activity_at(thread_id, status, now)
    }

    /// Whether `a` is listed before `b` on a board.
    fn listed_before(a: &BoardSession, b: &BoardSession) -> (r: bool)
        ensures
            r == session_listed_before(*a, *b),
    {
        a.sort_order < b.sort_order || (a.sort_order == b.sort_order && (a.added_at < b.added_at
            || (a.added_at == b.added_at && a.thread_id.uuid < b.thread_id.uuid)))
    }

    /// Where `x` goes in `l`, in listing order.
    fn position_point(l: &Vec<BoardSession>, x: &BoardSession) -> (p: usize)
        ensures
            p == position_insertion_point(l@, *x),
            p <= l@.len(),
    {
        let mut k: usize = 0;
        assert(l@.skip(0) =~= l@);
        while k < l.len()
            invariant
                k <= l@.len(),
                position_insertion_point(l@, *x) == k + position_insertion_point(l@.skip(k as int), *x),
            decreases l@.len() - k,
        {
            assert(l@.skip(k as int)[0] == l@[k as int]);
            if Self::listed_before(x, &l[k]) {
                return k;
            }
            assert(l@.skip(k as int).drop_first() =~= l@.skip(k + 1));
            k = k + 1;
        }
        k
    }

    /// The active sessions of the board `board_id`, in listing order: by position, then by when they were added.
    pub fn list_board_sessions(&self, board_id: &str) -> (r: Vec<BoardSession>)
        ensures
            r@ == board_session_list(self@, board_id@),
    {
        let ghost pred = |s: BoardSession| is_listed_on(s, board_id@);
        let mut r: Vec<BoardSession> = Vec::new();
        let mut i: usize = 0;
        while i < self.sessions.len()
            invariant
                pred == (|s: BoardSession| is_listed_on(s, board_id@)),
                i <= self@.sessions.len(),
                r@ == sort_by_position(self@.sessions.take(i as int).filter(pred)),
            decreases self@.sessions.len() - i,
        {
            proof {
                self@.sessions.lemma_take_succ_push(i as int);
                self@.sessions.take(i as int).lemma_filter_push(self@.sessions[i as int], pred);
            }
            let s = &self.sessions[i];
            if s.removed_at.is_none() && text_eq(s.board_id.as_str(), board_id) {
                let p = Self::position_point(&r, s);
                let ghost f = self@.sessions.take(i as int).filter(pred);
                r.insert(p, s.clone());
                assert(f.push(self@.sessions[i as int]).drop_last() =~= f);
            }
            i = i + 1;
        }
        assert(self@.sessions.take(self@.sessions.len() as int) =~= self@.sessions);
        r
    }

    fn listed_before_exec(a: &Board, b: &Board) -> (r: bool)
        ensures
            r == board_listed_before(*a, *b),
    {
        a.updated_at > b.updated_at || (a.updated_at == b.updated_at && text_le_exec(
            a.name.as_str(),
            b.name.as_str(),
        ))
    }

    /// Where board `x` goes in `l`.
    fn board_point(l: &Vec<Board>, x: &Board) -> (p: usize)
        ensures
            p == board_insertion_point(l@, *x),
            p <= l@.len(),
    {
        let mut k: usize = 0;
        assert(l@.skip(0) =~= l@);
        while k < l.len()
            invariant
                k <= l@.len(),
                board_insertion_point(l@, *x) == k + board_insertion_point(l@.skip(k as int), *x),
            decreases l@.len() - k,
        {
            assert(l@.skip(k as int)[0] == l@[k as int]);
            if !Self::listed_before_exec(&l[k], x) {
                return k;
            }
            assert(l@.skip(k as int).drop_first() =~= l@.skip(k + 1));
            k = k + 1;
        }
        k
    }

    /// The number of active sessions of the board `board_id`: all of them,
    /// those running, and those needing attention.
    fn board_counts(&self, board_id: &str) -> (r: (usize, usize, usize))
        ensures
            r.0 == count_board_sessions(self@.sessions, board_id@, None),
            r.1 == count_board_sessions(self@.sessions, board_id@, Some(BoardSessionStatus::Running)),
            r.2 == count_board_sessions(
                self@.sessions,
                board_id@,
                Some(BoardSessionStatus::NeedsAttention),
            ),
    {
        let mut all: usize = 0;
        let mut running: usize = 0;
        let mut attention: usize = 0;
        let mut i: usize = 0;
        while i < self.sessions.len()
            invariant
                i <= self@.sessions.len(),
                all <= i && running <= i && attention <= i,
                all == count_board_sessions(self@.sessions.take(i as int), board_id@, None),
                running == count_board_sessions(
                    self@.sessions.take(i as int),
                    board_id@,
                    Some(BoardSessionStatus::Running),
                ),
                attention == count_board_sessions(
                    self@.sessions.take(i as int),
                    board_id@,
                    Some(BoardSessionStatus::NeedsAttention),
                ),
            decreases self@.sessions.len() - i,
        {
            proof {
                assert(self@.sessions.take(i + 1).drop_last() =~= self@.sessions.take(i as int));
                assert(self@.sessions.take(i + 1).last() == self@.sessions[i as int]);
            }
            let s = &self.sessions[i];
            if s.removed_at.is_none() && text_eq(s.board_id.as_str(), board_id) {
                all = all + 1;
                if s.status == BoardSessionStatus::Running {
                    running = running + 1;
                }
                if s.status == BoardSessionStatus::NeedsAttention {
                    attention = attention + 1;
                }
            }
            i = i + 1;
        }
        assert(self@.sessions.take(self@.sessions.len() as int) =~= self@.sessions);
        (all, running, attention)
    }

    /// Every board with the number of its active sessions, of those running and
    /// of those needing attention; the most recently updated board first,
    /// boards updated at the same time by name.
    pub fn list_boards(&self) -> (r: Vec<BoardOverview>)
        ensures
            r@.len() == self@.boards.len(),
            forall|k: int|
                #![trigger r@[k]]
                0 <= k < r@.len() ==> {
                    let b = board_list(self@)[k];
                    &&& r@[k].board == b
                    &&& r@[k].session_count == count_board_sessions(self@.sessions, b.id@, None)
                    &&& r@[k].running_count == count_board_sessions(
                        self@.sessions,
                        b.id@,
                        Some(BoardSessionStatus::Running),
                    )
                    &&& r@[k].needs_attention_count == count_board_sessions(
                        self@.sessions,
                        b.id@,
                        Some(BoardSessionStatus::NeedsAttention),
                    )
                },
    {
        let mut sorted: Vec<Board> = Vec::new();
        let mut i: usize = 0;
        while i < self.boards.len()
            invariant
                i <= self@.boards.len(),
                sorted@ == sort_boards(self@.boards.take(i as int)),
            decreases self@.boards.len() - i,
        {
            proof {
                assert(self@.boards.take(i + 1).drop_last() =~= self@.boards.take(i as int));
                assert(self@.boards.take(i + 1).last() == self@.boards[i as int]);
            }
            let p = Self::board_point(&sorted, &self.boards[i]);
            sorted.insert(p, self.boards[i].clone());
            i = i + 1;
        }
        assert(self@.boards.take(self@.boards.len() as int) =~= self@.boards);
        proof {
            crate::ordering::lemma_sort_boards(self@.boards);
        }
        let mut r: Vec<BoardOverview> = Vec::new();
        let mut k: usize = 0;
        while k < sorted.len()
            invariant
                sorted@ == board_list(self@),
                sorted@.len() == self@.boards.len(),
                k <= sorted@.len(),
                r@.len() == k,
                forall|j: int|
                    #![trigger r@[j]]
                    0 <= j < k ==> {
                        let b = board_list(self@)[j];
                        &&& r@[j].board == b
                        &&& r@[j].session_count == count_board_sessions(self@.sessions, b.id@, None)
                        &&& r@[j].running_count == count_board_sessions(
                            self@.sessions,
                            b.id@,
                            Some(BoardSessionStatus::Running),
                        )
                        &&& r@[j].needs_attention_count == count_board_sessions(
                            self@.sessions,
                            b.id@,
                            Some(BoardSessionStatus::NeedsAttention),
                        )
                    },
            decreases sorted@.len() - k,
        {
            let (all, running, attention) = self.board_counts(sorted[k].id.as_str());
            r.push(
                BoardOverview {
                    board: sorted[k].clone(),
                    session_count: all,
                    running_count: running,
                    needs_attention_count: attention,
                },
            );
            k = k + 1;
        }
        r
    }

    /// The first place of a session of `thread_id` in `l`.
    fn thread_position(l: &Vec<BoardSession>, thread_id: ThreadId) -> (r: Option<usize>)
        ensures
            r is None <==> find_thread(l@, thread_id) is None,
            r matches Some(k) ==> find_thread(l@, thread_id) == Some(k as int),
    {
        proof {
            lemma_find_thread(l@, thread_id);
        }
        let mut k: usize = 0;
        while k < l.len()
            invariant
                k <= l@.len(),
                forall|j: int| 0 <= j < k ==> (#[trigger] l@[j]).thread_id != thread_id,
                match find_thread(l@, thread_id) {
                    Some(m) => 0 <= m < l@.len() && l@[m].thread_id == thread_id && forall|j: int|
                        0 <= j < m ==> (#[trigger] l@[j]).thread_id != thread_id,
                    None => forall|j: int| 0 <= j < l@.len() ==> (#[trigger] l@[j]).thread_id != thread_id,
                },
            decreases l@.len() - k,
        {
            if l[k].thread_id == thread_id {
                return Some(k);
            }
            k = k + 1;
        }
        None
    }

    /// Swaps the active session of `thread_id` on the board `board_id` with its
    /// neighbour above or below in the listing, then numbers the positions of
    /// the board's active sessions 0, 1, 2, ... in the new order and stamps
    /// the board at `now`. Answers whether the session moved: it does not when
    /// the board does not hold it or it is already at that end. Fails,
    /// changing nothing, when the board holds more sessions than an `i64`
    /// can number.
    pub fn move_board_session_at(
        &mut self,
        board_id: &str,
        thread_id: ThreadId,
        direction: BoardSessionMoveDirection,
        now: i64,
    ) -> (r: Result<bool, BoardError>)
        requires
            old(self)@.wf(),
        ensures
            final(self)@.wf(),
            ({
                let l = board_session_list(old(self)@, board_id@);
                let from = find_thread(l, thread_id);
                let moves = from is Some && move_target(from->0, direction, l.len() as int) is Some;
                let to = move_target(from->0, direction, l.len() as int)->0;
                &&& r is Err <==> moves && l.len() > i64::MAX + 1
                &&& r is Err ==> final(self)@ == old(self)@
                &&& r is Ok ==> {
                    &&& r == Ok::<bool, BoardError>(moves)
                    &&& sessions_changed(
                        old(self)@.sessions,
                        final(self)@.sessions,
                        |s: BoardSession| moves && is_listed_on(s, board_id@),
                        |o: BoardSession, n: BoardSession|
                            n == session_at_position(o, moved_position(l, from->0, to, o.thread_id) as i64),
                    )
                    &&& boards_changed(
                        old(self)@.boards,
                        final(self)@.boards,
                        |b: Board| moves && b.id@ == board_id@,
                        |o: Board, n: Board| n == board_stamped(o, now),
                    )
                }
            }),
    {
        let ghost old_state = self@;
        let list = self.list_board_sessions(board_id);
        let ghost l = list@;
        proof {
            lemma_board_session_list(old_state, board_id@);
            lemma_find_thread(l, thread_id);
        }
        let found = Self::thread_position(&list, thread_id);
        let target: Option<(usize, usize)> = match found {
            Some(f) => match direction {
                BoardSessionMoveDirection::Up => if f > 0 { Some((f, f - 1)) } else { None },
                BoardSessionMoveDirection::Down => if f < list.len() - 1 { Some((f, f + 1)) } else { None },
            },
            None => None,
        };
        let (from, to) = match target {
            Some(p) => p,
            None => {
                assert(self@.sessions =~= old_state.sessions);
                assert(self@.boards =~= old_state.boards);
                return Ok(false);
            },
        };
        if list.len() as u64 > 9223372036854775808u64 {
            return Err(BoardError::SortOrderOverflow);
        }
        let ghost moves = true;
        let mut i: usize = 0;
        while i < self.sessions.len()
            invariant
                old_state.wf(),
                l == board_session_list(old_state, board_id@),
                list@ == l,
                from < l.len(),
                to < l.len(),
                l.len() <= 9223372036854775808,
                find_thread(l, thread_id) == Some(from as int),
                self@.boards == old_state.boards,
                self@.sessions.len() == old_state.sessions.len(),
                i <= old_state.sessions.len(),
                forall|j: int|
                    0 <= j < old_state.sessions.len() && is_listed_on(#[trigger] old_state.sessions[j], board_id@)
                        ==> l.contains(old_state.sessions[j]),
                forall|j: int|
                    #![trigger self@.sessions[j]]
                    0 <= j < i ==> if is_listed_on(old_state.sessions[j], board_id@) {
                        self@.sessions[j] == session_at_position(
                            old_state.sessions[j],
                            moved_position(l, from as int, to as int, old_state.sessions[j].thread_id) as i64,
                        )
                    } else {
                        self@.sessions[j] == old_state.sessions[j]
                    },
                forall|j: int|
                    #![trigger self@.sessions[j]]
                    i <= j < old_state.sessions.len() ==> self@.sessions[j] == old_state.sessions[j],
            decreases old_state.sessions.len() - i,
        {
            if self.sessions[i].removed_at.is_none() && text_eq(self.sessions[i].board_id.as_str(), board_id) {
                let t = self.sessions[i].thread_id;
                proof {
                    assert(is_listed_on(old_state.sessions[i as int], board_id@));
                    assert(l.contains(old_state.sessions[i as int]));
                    lemma_find_thread(l, t);
                }
                let k = match Self::thread_position(&list, t) {
                    Some(k) => k,
                    None => {
                        proof {
                            let m = choose|m: int| 0 <= m < l.len() && l[m] == old_state.sessions[i as int];
                            assert(l[m].thread_id == t);
                        }
                        return Ok(true);
                    },
                };
                let pos = if k == from {
                    to
                } else if k == to {
                    from
                } else {
                    k
                };
                let mut row = self.sessions[i].clone();
                row.sort_order = pos as i64;
                self.sessions.set(i, row);
            }
            i = i + 1;
        }
        proof {
            let new_state = self@;
            assert forall|p: int, q: int|
                0 <= p < new_state.sessions.len() && 0 <= q < new_state.sessions.len() && p != q
                    implies !is_row_of(
                #[trigger] new_state.sessions[p],
                #[trigger] new_state.sessions[q].board_id@,
                new_state.sessions[q].thread_id,
            ) by {
                assert(!is_row_of(old_state.sessions[p], old_state.sessions[q].board_id@, old_state.sessions[q].thread_id));
            }
            assert forall|p: int| 0 <= p < new_state.sessions.len() implies new_state.has_board(
                #[trigger] new_state.sessions[p].board_id@,
            ) by {
                assert(old_state.has_board(old_state.sessions[p].board_id@));
            }
            assert(new_state.wf());
        }
        self.stamp_board(board_id, now);
        Ok(true)
    }

    /// Swaps the active session of `thread_id` on the board `board_id` with its
    /// neighbour in `direction`, stamped with the current time.
    pub fn move_board_session(
        &mut self,
        board_id: &str,
        thread_id: ThreadId,
        direction: BoardSessionMoveDirection,
    ) -> (r: Result<bool, BoardError>)
        requires
            old(self)@.wf(),
        ensures
            final(self)@.wf(),
            exists|now: i64| #![trigger timestamp_representable(now)] timestamp_representable(now) &&
            ({
                let l = board_session_list(old(self)@, board_id@);
                let from = find_thread(l, thread_id);
                let moves = from is Some && move_target(from->0, direction, l.len() as int) is Some;
                let to = move_target(from->0, direction, l.len() as int)->0;
                &&& r is Err <==> moves && l.len() > i64::MAX + 1
                &&& r is Err ==> final(self)@ == old(self)@
                &&& r is Ok ==> {
                    &&& r == Ok::<bool, BoardError>(moves)
                    &&& sessions_changed(
                        old(self)@.sessions,
                        final(self)@.sessions,
                        |s: BoardSession| moves && is_listed_on(s, board_id@),
                        |o: BoardSession, n: BoardSession|
                            n == session_at_position(o, moved_position(l, from->0, to, o.thread_id) as i64),
                    )
                    &&& boards_changed(
                        old(self)@.boards,
                        final(self)@.boards,
                        |b: Board| moves && b.id@ == board_id@,
                        |o: Board, n: Board| n == board_stamped(o, now),
                    )
                }
            }),
    {
        let now = now_epoch_seconds();
        self.move_board_session_at(board_id, thread_id, direction, now)
    }

    /// The boards, in the order they are held.
    pub fn boards(&self) -> (r: &Vec<Board>)
        ensures
            r@ == self@.boards,
    {
        &self.boards
    }

    /// All board sessions, removed ones included, in the order they are held.
    pub fn sessions(&self) -> (r: &Vec<BoardSession>)
        ensures
            r@ == self@.sessions,
    {
        &self.sessions
    }

    /// The rows the store is saved as: one per board and one per session,
    /// in the order they are held.
    pub fn to_rows(&self) -> (r: (Vec<BoardRow>, Vec<BoardSessionRow>))
        ensures
            r.0@.len() == self@.boards.len(),
            forall|i: int| 0 <= i < self@.boards.len() ==> board_row_of(#[trigger] r.0@[i], self@.boards[i]),
            r.1@.len() == self@.sessions.len(),
            forall|i: int| 0 <= i < self@.sessions.len() ==> session_row_of(#[trigger] r.1@[i], self@.sessions[i]),
    {
        let mut board_rows: Vec<BoardRow> = Vec::new();
        let mut i: usize = 0;
        while i < self.boards.len()
            invariant
                i <= self@.boards.len(),
                board_rows@.len() == i,
                forall|k: int| 0 <= k < i ==> board_row_of(#[trigger] board_rows@[k], self@.boards[k]),
            decreases self@.boards.len() - i,
        {
            board_rows.push(self.boards[i].to_row());
            i = i + 1;
        }
        let mut session_rows: Vec<BoardSessionRow> = Vec::new();
        let mut j: usize = 0;
        while j < self.sessions.len()
            invariant
                j <= self@.sessions.len(),
                session_rows@.len() == j,
                forall|k: int| 0 <= k < j ==> session_row_of(#[trigger] session_rows@[k], self@.sessions[k]),
            decreases self@.sessions.len() - j,
        {
            session_rows.push(self.sessions[j].to_row());
            j = j + 1;
        }
        (board_rows, session_rows)
    }

    /// The store read back from stored rows: each row converted as
    /// `try_from_row` does, the first row that fails (boards first) giving
    /// the error; none when the rows convert but do not make a consistent store.
    #[verifier::loop_isolation(false)]
    pub fn from_rows(board_rows: Vec<BoardRow>, session_rows: Vec<BoardSessionRow>) -> (r: Result<
        Option<StateRuntime>,
        BoardError,
    >)
        ensures
            ({
                let board_fails = exists|i: int| 0 <= i < board_rows@.len() && (#[trigger] board_row_error(board_rows@[i])) is Some;
                let session_fails = exists|i: int| 0 <= i < session_rows@.len() && (#[trigger] session_row_error(session_rows@[i])) is Some;
                let st = BoardsState {
                    boards: board_rows@.map_values(|row: BoardRow| board_of_row(row)),
                    sessions: session_rows@.map_values(|row: BoardSessionRow| session_of_row(row)),
                };
                &&& r is Err <==> board_fails || session_fails
                &&& r matches Err(e) ==> if board_fails {
                    exists|i: int|
                        0 <= i < board_rows@.len() && board_row_error(board_rows@[i]) == Some(e) && forall|k: int|
                            0 <= k < i ==> (#[trigger] board_row_error(board_rows@[k])) is None
                } else {
                    exists|i: int|
                        0 <= i < session_rows@.len() && session_row_error(session_rows@[i]) == Some(e) && forall|k: int|
                            0 <= k < i ==> (#[trigger] session_row_error(session_rows@[k])) is None
                }
                &&& r matches Ok(o) ==> (o is Some <==> st.wf()) && (o matches Some(rt) ==> rt@ == st)
            }),
    {
        let ghost brows = board_rows@;
        let ghost srows = session_rows@;
        let mut rest_boards = board_rows;
        let mut boards: Vec<Board> = Vec::new();
        while rest_boards.len() > 0
            invariant
                rest_boards@.len() + boards@.len() == brows.len(),
                rest_boards@ == brows.skip(boards@.len() as int),
                forall|k: int| 0 <= k < boards@.len() ==> board_row_error(#[trigger] brows[k]) is None && boards@[k] == board_of_row(brows[k]),
            decreases rest_boards@.len(),
        {
            let ghost k = boards@.len() as int;
            assert(rest_boards@[0] == brows[k]);
            let row = rest_boards.remove(0);
            assert(rest_boards@ =~= brows.skip(k + 1));
            match Board::try_from_row(row) {
                Ok(b) => boards.push(b),
                Err(e) => {
                    assert(board_row_error(brows[k]) == Some(e));
                    assert(forall|k2: int| 0 <= k2 < k ==> (#[trigger] board_row_error(brows[k2])) is None);
                    assert(0 <= k < brows.len() && board_row_error(brows[k]) == Some(e) && forall|k2: int|
                        0 <= k2 < k ==> (#[trigger] board_row_error(brows[k2])) is None);
                    return Err(e);
                },
            }
        }
        let mut rest_sessions = session_rows;
        let mut sessions: Vec<BoardSession> = Vec::new();
        while rest_sessions.len() > 0
            invariant
                rest_sessions@.len() + sessions@.len() == srows.len(),
                rest_sessions@ == srows.skip(sessions@.len() as int),
                forall|k: int| 0 <= k < sessions@.len() ==> session_row_error(#[trigger] srows[k]) is None && sessions@[k] == session_of_row(srows[k]),
                forall|k: int| 0 <= k < brows.len() ==> board_row_error(#[trigger] brows[k]) is None && boards@[k] == board_of_row(brows[k]),
                boards@.len() == brows.len(),
            decreases rest_sessions@.len(),
        {
            let ghost k = sessions@.len() as int;
            assert(rest_sessions@[0] == srows[k]);
            let row = rest_sessions.remove(0);
            assert(rest_sessions@ =~= srows.skip(k + 1));
            match BoardSession::try_from_row(row) {
                Ok(x) => sessions.push(x),
                Err(e) => {
                    assert(session_row_error(srows[k]) == Some(e));
                    assert(forall|k2: int| 0 <= k2 < k ==> (#[trigger] session_row_error(srows[k2])) is None);
                    assert(0 <= k < srows.len() && session_row_error(srows[k]) == Some(e) && forall|k2: int|
                        0 <= k2 < k ==> (#[trigger] session_row_error(srows[k2])) is None);
                    assert(!exists|i: int| 0 <= i < brows.len() && (#[trigger] board_row_error(brows[i])) is Some);
                    return Err(e);
                },
            }
        }
        assert(boards@ =~= brows.map_values(|row: BoardRow| board_of_row(row)));
        assert(sessions@ =~= srows.map_values(|row: BoardSessionRow| session_of_row(row)));
        Ok(Self::from_parts(boards, sessions))
    }

    fn board_ids_unique(boards: &Vec<Board>) -> (r: bool)
        ensures
            r == forall|i: int, j: int|
                0 <= i < boards@.len() && 0 <= j < boards@.len() && i != j
                    ==> #[trigger] boards@[i].id@ != #[trigger] boards@[j].id@,
    {
        let mut i: usize = 0;
        while i < boards.len()
            invariant
                i <= boards@.len(),
                forall|p: int, q: int|
                    0 <= p < i && 0 <= q < boards@.len() && p != q
                        ==> #[trigger] boards@[p].id@ != #[trigger] boards@[q].id@,
            decreases boards@.len() - i,
        {
            let mut j: usize = 0;
            while j < boards.len()
                invariant
                    i < boards@.len(),
                    j <= boards@.len(),
                    forall|p: int, q: int|
                        0 <= p < i && 0 <= q < boards@.len() && p != q
                            ==> #[trigger] boards@[p].id@ != #[trigger] boards@[q].id@,
                    forall|q: int| 0 <= q < j && q != i ==> boards@[i as int].id@ != #[trigger] boards@[q].id@,
                decreases boards@.len() - j,
            {
                if j != i && text_eq(boards[i].id.as_str(), boards[j].id.as_str()) {
                    return false;
                }
                j = j + 1;
            }
            i = i + 1;
        }
        true
    }

    fn session_rows_consistent(sessions: &Vec<BoardSession>) -> (r: bool)
        ensures
            r == (forall|i: int, j: int|
                0 <= i < sessions@.len() && 0 <= j < sessions@.len() && i != j
                    ==> !is_row_of(
                    #[trigger] sessions@[i],
                    #[trigger] sessions@[j].board_id@,
                    sessions@[j].thread_id,
                )),
    {
        let mut i: usize = 0;
        while i < sessions.len()
            invariant
                i <= sessions@.len(),
                forall|p: int, q: int|
                    0 <= p < i && 0 <= q < sessions@.len() && p != q ==> !is_row_of(
                        #[trigger] sessions@[p],
                        #[trigger] sessions@[q].board_id@,
                        sessions@[q].thread_id,
                    ),
            decreases sessions@.len() - i,
        {
            let mut j: usize = 0;
            while j < sessions.len()
                invariant
                    i < sessions@.len(),
                    j <= sessions@.len(),
                    forall|p: int, q: int|
                        0 <= p < i && 0 <= q < sessions@.len() && p != q ==> !is_row_of(
                            #[trigger] sessions@[p],
                            #[trigger] sessions@[q].board_id@,
                            sessions@[q].thread_id,
                        ),
                    forall|q: int|
                        0 <= q < j && q != i ==> !is_row_of(
                            sessions@[i as int],
                            #[trigger] sessions@[q].board_id@,
                            sessions@[q].thread_id,
                        ),
                decreases sessions@.len() - j,
            {
                if j != i {
                    let a = &sessions[i];
                    let b = &sessions[j];
                    let same_board = text_eq(a.board_id.as_str(), b.board_id.as_str());
                    if same_board && a.thread_id == b.thread_id {
                        return false;
                    }
                }
                j = j + 1;
            }
            i = i + 1;
        }
        true
    }

    /// A store holding `boards` and `sessions`, when they meet the store's
    /// invariant (see `BoardsState::wf`); `None` when they do not.
    pub fn from_parts(boards: Vec<Board>, sessions: Vec<BoardSession>) -> (r: Option<StateRuntime>)
        ensures
            r is Some <==> (BoardsState { boards: boards@, sessions: sessions@ }).wf(),
            r matches Some(s) ==> s@ == (BoardsState { boards: boards@, sessions: sessions@ }),
    {
        let ghost st = BoardsState { boards: boards@, sessions: sessions@ };
        if !Self::board_ids_unique(&boards) {
            return None;
        }
        if !Self::session_rows_consistent(&sessions) {
            return None;
        }
        let mut i: usize = 0;
        while i < sessions.len()
            invariant
                st == (BoardsState { boards: boards@, sessions: sessions@ }),
                i <= st.sessions.len(),
                forall|j: int| 0 <= j < i ==> st.has_board(#[trigger] st.sessions[j].board_id@),
            decreases st.sessions.len() - i,
        {
            let mut k: usize = 0;
            let mut found = false;
            while k < boards.len()
                invariant
                    st == (BoardsState { boards: boards@, sessions: sessions@ }),
                    i < st.sessions.len(),
                    k <= boards@.len(),
                    found ==> st.has_board(st.sessions[i as int].board_id@),
                    !found ==> forall|q: int| 0 <= q < k ==> (#[trigger] boards@[q]).id@ != st.sessions[i as int].board_id@,
                decreases boards@.len() - k,
            {
                if text_eq(boards[k].id.as_str(), sessions[i].board_id.as_str()) {
                    found = true;
                }
                k = k + 1;
            }
            if !found {
                assert(!st.has_board(st.sessions[i as int].board_id@));
                return None;
            }
            i = i + 1;
        }
        let s = StateRuntime { boards, sessions };
        Some(s)
    }
}

} // verus!
