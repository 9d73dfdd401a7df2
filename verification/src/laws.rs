//! What holds of the board store across its operations.

use vstd::prelude::*;
use crate::model::{
    Board, BoardRow, BoardSession, BoardSessionRow, board_of_row, board_row_error, board_row_of,
    board_times_representable, session_of_row, session_row_error, session_row_of,
    session_times_representable,
};
use crate::state::{
    BoardsState, board_renamed, board_session_list, board_reselected,
    boards_changed, find_thread, is_active, is_active_row_of, is_listed_on,
    is_row_of, lemma_board_session_list, moved_position, move_target, session_at_position,
    session_handed_over, session_removed, session_seen, session_with_activity,
    session_with_status, sessions_changed, next_event_idx, next_sort_order, session_readded,
    session_added, lemma_max_active_sort_bounds, count_board_sessions, session_retitled,
};
use crate::status::{BoardSessionMoveDirection, BoardSessionStatus};
use crate::thread_id::ThreadId;
use crate::ordering::{session_listed_before, lemma_position_order_same_members, lemma_position_order_unique, lemma_sort_boards, positions_increase};
use crate::state::board_list;

verus! {

/// In a consistent store, a board is determined by its identifier.
pub proof fn law_board_determined_by_id(st: BoardsState, a: Board, b: Board)
    requires
        st.wf(),
        st.boards.contains(a),
        st.boards.contains(b),
        a.id@ == b.id@,
    ensures
        a == b,
{
    let i = choose|i: int| 0 <= i < st.boards.len() && st.boards[i] == a;
    let j = choose|j: int| 0 <= j < st.boards.len() && st.boards[j] == b;
    if i != j {
        assert(st.boards[i].id@ != st.boards[j].id@);
    }
}

/// A created board is the board found under its identifier afterwards.
pub proof fn law_created_board_is_found(old: BoardsState, new: BoardsState, created: Board, found: Board)
    requires
        new.wf(),
        new.boards == old.boards.push(created),
        new.boards.contains(found),
        found.id@ == created.id@,
    ensures
        found == created,
{
    assert(new.boards[new.boards.len() - 1] == created);
    law_board_determined_by_id(new, found, created);
}

/// After a rename, the board found under the identifier carries the new name.
pub proof fn law_renamed_board_has_new_name(
    old: BoardsState,
    new: BoardsState,
    board_id: Seq<char>,
    name: Seq<char>,
    now: i64,
    found: Board,
)
    requires
        new.wf(),
        boards_changed(
            old.boards,
            new.boards,
            |b: Board| b.id@ == board_id,
            |o: Board, n: Board| board_renamed(o, n, name, now),
        ),
        new.boards.contains(found),
        found.id@ == board_id,
    ensures
        found.name@ == name,
        found.updated_at == now,
{
    let i = choose|i: int| 0 <= i < new.boards.len() && new.boards[i] == found;
    if old.boards[i].id@ == board_id {
        assert(board_renamed(old.boards[i], new.boards[i], name, now));
    } else {
        assert(new.boards[i] == old.boards[i]);
    }
}

/// After a board is deleted, no board and no session, removed or not, carries
/// its identifier, and every other board and session is still there.
pub proof fn law_deleted_board_is_gone(old: BoardsState, new: BoardsState, board_id: Seq<char>)
    requires
        new.boards == old.boards.filter(|b: Board| b.id@ != board_id),
        new.sessions == old.sessions.filter(|s: BoardSession| s.board_id@ != board_id),
    ensures
        !new.has_board(board_id),
        forall|i: int| 0 <= i < new.sessions.len() ==> (#[trigger] new.sessions[i]).board_id@ != board_id,
        forall|b: Board| old.boards.contains(b) && b.id@ != board_id ==> #[trigger] new.boards.contains(b),
        forall|s: BoardSession|
            old.sessions.contains(s) && s.board_id@ != board_id ==> #[trigger] new.sessions.contains(s),
{
    let pb = |b: Board| b.id@ != board_id;
    let ps = |s: BoardSession| s.board_id@ != board_id;
    assert forall|i: int| 0 <= i < new.boards.len() implies (#[trigger] new.boards[i]).id@ != board_id by {
        old.boards.lemma_filter_pred(pb, i);
    }
    assert forall|i: int| 0 <= i < new.sessions.len() implies (#[trigger] new.sessions[i]).board_id@ != board_id by {
        old.sessions.lemma_filter_pred(ps, i);
    }
    assert forall|b: Board| old.boards.contains(b) && b.id@ != board_id implies #[trigger] new.boards.contains(b) by {
        let i = choose|i: int| 0 <= i < old.boards.len() && old.boards[i] == b;
        old.boards.lemma_filter_contains(pb, i);
    }
    assert forall|s: BoardSession| old.sessions.contains(s) && s.board_id@ != board_id implies #[trigger] new.sessions.contains(s) by {
        let i = choose|i: int| 0 <= i < old.sessions.len() && old.sessions[i] == s;
        old.sessions.lemma_filter_contains(ps, i);
    }
}

/// A session taken off its board is no longer listed on it, and the row
/// stays, marked removed.
pub proof fn law_removed_session_is_not_listed(
    old: BoardsState,
    new: BoardsState,
    board_id: Seq<char>,
    thread: ThreadId,
    now: i64,
)
    requires
        old.wf(),
        new.wf(),
        sessions_changed(
            old.sessions,
            new.sessions,
            |s: BoardSession| is_active_row_of(s, board_id, thread),
            |o: BoardSession, n: BoardSession| n == session_removed(o, now),
        ),
    ensures
        !new.has_active_row(board_id, thread),
        forall|m: int|
            0 <= m < board_session_list(new, board_id).len() ==> (#[trigger] board_session_list(
                new,
                board_id,
            )[m]).thread_id != thread,
        old.has_row(board_id, thread) ==> new.has_row(board_id, thread),
{
    assert forall|i: int| 0 <= i < new.sessions.len() implies !is_active_row_of(#[trigger] new.sessions[i], board_id, thread) by {
        if is_active_row_of(old.sessions[i], board_id, thread) {
            assert(new.sessions[i] == session_removed(old.sessions[i], now));
        } else {
            assert(new.sessions[i] == old.sessions[i]);
        }
    }
    lemma_board_session_list(new, board_id);
    assert forall|m: int| 0 <= m < board_session_list(new, board_id).len() implies (#[trigger] board_session_list(
        new,
        board_id,
    )[m]).thread_id != thread by {
        let x = board_session_list(new, board_id)[m];
        assert(is_listed_on(x, board_id) && new.sessions.contains(x));
        let i = choose|i: int| 0 <= i < new.sessions.len() && new.sessions[i] == x;
        assert(!is_active_row_of(new.sessions[i], board_id, thread));
    }
    if old.has_row(board_id, thread) {
        let i = choose|i: int| 0 <= i < old.sessions.len() && is_row_of(#[trigger] old.sessions[i], board_id, thread);
        if is_active_row_of(old.sessions[i], board_id, thread) {
            assert(new.sessions[i] == session_removed(old.sessions[i], now));
        } else {
            assert(new.sessions[i] == old.sessions[i]);
        }
        assert(is_row_of(new.sessions[i], board_id, thread));
    }
}

/// Marking a session seen on one board leaves every session of every other
/// board, and every other thread's session, as it was.
pub proof fn law_seen_is_board_specific(
    old: BoardsState,
    new: BoardsState,
    board_id: Seq<char>,
    thread: ThreadId,
)
    requires
        sessions_changed(
            old.sessions,
            new.sessions,
            |s: BoardSession| is_active_row_of(s, board_id, thread),
            |o: BoardSession, n: BoardSession| n == session_seen(o),
        ),
    ensures
        forall|i: int|
            0 <= i < old.sessions.len() && !is_row_of(old.sessions[i], board_id, thread)
                ==> #[trigger] new.sessions[i] == old.sessions[i],
{
}

/// A status set on a thread reaches its active session on every board, and
/// no other session.
pub proof fn law_thread_status_reaches_every_board(
    old: BoardsState,
    new: BoardsState,
    thread: ThreadId,
    status: BoardSessionStatus,
)
    requires
        sessions_changed(
            old.sessions,
            new.sessions,
            |s: BoardSession| is_active(s) && s.thread_id == thread,
            |o: BoardSession, n: BoardSession| n == session_with_status(o, status),
        ),
    ensures
        forall|i: int|
            0 <= i < old.sessions.len() && is_active(old.sessions[i]) && old.sessions[i].thread_id == thread
                ==> (#[trigger] new.sessions[i]).status == status,
        forall|i: int|
            0 <= i < old.sessions.len() && !(is_active(old.sessions[i]) && old.sessions[i].thread_id == thread)
                ==> #[trigger] new.sessions[i] == old.sessions[i],
{
}

/// Recorded activity advances the event index of the thread's active session
/// on every board by one, starting from 0, and leaves what was seen as it was.
pub proof fn law_activity_advances_event_index(
    old: BoardsState,
    new: BoardsState,
    thread: ThreadId,
    status: BoardSessionStatus,
)
    requires
        sessions_changed(
            old.sessions,
            new.sessions,
            |s: BoardSession| is_active(s) && s.thread_id == thread,
            |o: BoardSession, n: BoardSession| n == session_with_activity(o, status),
        ),
    ensures
        forall|i: int|
            0 <= i < old.sessions.len() && is_active(old.sessions[i]) && old.sessions[i].thread_id == thread
                ==> {
                &&& (#[trigger] new.sessions[i]).last_event_idx == Some(
                    next_event_idx(old.sessions[i].last_event_idx) as i64,
                )
                &&& new.sessions[i].last_seen_event_idx == old.sessions[i].last_seen_event_idx
                &&& new.sessions[i].status == status
            },
{
}

/// Once seen, a session's last seen event is its last event, and only a
/// running, waiting or errored session keeps its status.
pub proof fn law_seen_catches_up(old: BoardSession)
    ensures
        old.last_event_idx is Some ==> session_seen(old).last_seen_event_idx == old.last_event_idx,
        session_seen(old).status == BoardSessionStatus::Seen || session_seen(old).status == old.status,
        old.status == BoardSessionStatus::NeedsAttention ==> session_seen(old).status
            == BoardSessionStatus::Seen,
{
}

/// A session handed over to another thread keeps its place on the board, and
/// a board that had the old thread selected selects the new one.
pub proof fn law_handover_keeps_place_and_selection(
    old_row: BoardSession,
    new_row: BoardSession,
    old_board: Board,
    old_thread: ThreadId,
    new_thread: ThreadId,
    title: Seq<char>,
    now: i64,
)
    requires
        session_handed_over(old_row, new_row, new_thread, title),
        old_board.last_selected_thread_id == Some(old_thread),
    ensures
        new_row.sort_order == old_row.sort_order,
        new_row.thread_id == new_thread,
        board_reselected(old_board, old_thread, new_thread, now).last_selected_thread_id == Some(
            new_thread,
        ),
{
}

/// Changing the rows that `p` picks by `f`, which keeps them picked, changes
/// the picked rows, in order, by `f`.
proof fn lemma_filter_after_change(
    old: Seq<BoardSession>,
    new: Seq<BoardSession>,
    p: spec_fn(BoardSession) -> bool,
    f: spec_fn(BoardSession) -> BoardSession,
)
    requires
        new.len() == old.len(),
        forall|i: int|
            #![trigger new[i]]
            0 <= i < old.len() ==> if p(old[i]) {
                new[i] == f(old[i]) && p(f(old[i]))
            } else {
                new[i] == old[i]
            },
    ensures
        new.filter(p) == old.filter(p).map_values(f),
    decreases old.len(),
{
    if old.len() == 0 {
        assert(new.filter(p) =~= old.filter(p).map_values(f));
    } else {
        let oi = old.drop_last();
        let ni = new.drop_last();
        assert forall|i: int| #![trigger ni[i]] 0 <= i < oi.len() implies if p(oi[i]) {
            ni[i] == f(oi[i]) && p(f(oi[i]))
        } else {
            ni[i] == oi[i]
        } by {
            assert(ni[i] == new[i] && oi[i] == old[i]);
        }
        lemma_filter_after_change(oi, ni, p, f);
        assert(old =~= oi.push(old.last()));
        assert(new =~= ni.push(new.last()));
        oi.lemma_filter_push(old.last(), p);
        ni.lemma_filter_push(new.last(), p);
        assert(new[new.len() - 1] == new.last());
        oi.filter(p).lemma_push_map_commute(f, old.last());
    }
}

/// Sequences that hold the same elements still do after `f` is applied to each.
proof fn lemma_multiset_map(a: Seq<BoardSession>, b: Seq<BoardSession>, f: spec_fn(BoardSession) -> BoardSession)
    requires
        a.to_multiset() == b.to_multiset(),
    ensures
        a.map_values(f).to_multiset() == b.map_values(f).to_multiset(),
    decreases a.len(),
{
    broadcast use vstd::multiset::group_multiset_axioms;
    broadcast use vstd::seq_lib::group_to_multiset_ensures;
    vstd::seq_lib::to_multiset_len(a);
    vstd::seq_lib::to_multiset_len(b);
    if a.len() == 0 {
        assert(b.len() == 0);
        assert(a.map_values(f) =~= b.map_values(f));
    } else {
        let x = a.last();
        let ai = a.drop_last();
        assert(a =~= ai.push(x));
        assert(a.to_multiset() == ai.to_multiset().insert(x));
        assert(a.to_multiset().count(x) > 0);
        assert(b.contains(x));
        let k = choose|k: int| 0 <= k < b.len() && b[k] == x;
        let bi = b.remove(k);
        assert(bi.to_multiset() == b.to_multiset().remove(b[k]));
        assert(ai.to_multiset() =~= bi.to_multiset());
        lemma_multiset_map(ai, bi, f);
        ai.lemma_push_map_commute(f, x);
        assert(a.map_values(f) =~= ai.map_values(f).push(f(x)));
        assert(b.map_values(f).remove(k) =~= bi.map_values(f));
        assert(b.map_values(f).remove(k).to_multiset() == b.map_values(f).to_multiset().remove(
            b.map_values(f)[k],
        ));
        assert(b.map_values(f).to_multiset().count(f(x)) > 0) by {
            assert(b.map_values(f)[k] == f(x));
            assert(b.map_values(f).contains(f(x)));
        }
        assert(a.map_values(f).to_multiset() =~= b.map_values(f).to_multiset());
    }
}

/// Swapping two elements keeps the elements.
proof fn lemma_multiset_swap(s: Seq<BoardSession>, i: int, j: int)
    requires
        0 <= i < s.len(),
        0 <= j < s.len(),
        i != j,
    ensures
        s.update(i, s[j]).update(j, s[i]).to_multiset() == s.to_multiset(),
{
    broadcast use vstd::multiset::group_multiset_axioms;
    let s1 = s.update(i, s[j]);
    vstd::seq_lib::to_multiset_update(s, i, s[j]);
    vstd::seq_lib::to_multiset_update(s1, j, s[i]);
    assert(s1[j] == s[j]);
    assert(s.to_multiset().count(s[i]) > 0) by {
        assert(s.contains(s[i]));
        vstd::seq_lib::to_multiset_contains(s, s[i]);
    }
    assert(s1.update(j, s[i]).to_multiset() =~= s.to_multiset());
}

/// The listing after a move: the listing before, with the moved session and
/// its neighbour swapped, each numbered by its new place.
pub open spec fn listing_after_move(l: Seq<BoardSession>, from: int, to: int) -> Seq<BoardSession> {
    Seq::new(
        l.len(),
        |k: int| {
            let src = if k == from {
                to
            } else if k == to {
                from
            } else {
                k
            };
            session_at_position(l[src], k as i64)
        },
    )
}

/// Moving a session swaps it with its neighbour in the board's listing, and
/// leaves every other session of the board where it was in the listing.
pub proof fn law_move_swaps_neighbours(
    old: BoardsState,
    new: BoardsState,
    board_id: Seq<char>,
    thread: ThreadId,
    direction: BoardSessionMoveDirection,
    from: int,
    to: int,
)
    requires
        old.wf(),
        new.wf(),
        find_thread(board_session_list(old, board_id), thread) == Some(from),
        move_target(from, direction, board_session_list(old, board_id).len() as int) == Some(to),
        board_session_list(old, board_id).len() <= i64::MAX + 1,
        sessions_changed(
            old.sessions,
            new.sessions,
            |s: BoardSession| is_listed_on(s, board_id),
            |o: BoardSession, n: BoardSession|
                n == session_at_position(
                    o,
                    moved_position(board_session_list(old, board_id), from, to, o.thread_id) as i64,
                ),
        ),
    ensures
        board_session_list(new, board_id) == listing_after_move(
            board_session_list(old, board_id),
            from,
            to,
        ),
        board_session_list(new, board_id)[to].thread_id == thread,
        board_session_list(new, board_id)[from].thread_id == board_session_list(old, board_id)[to].thread_id,
        forall|k: int|
            0 <= k < board_session_list(new, board_id).len() && k != from && k != to
                ==> (#[trigger] board_session_list(new, board_id)[k]).thread_id == board_session_list(
                old,
                board_id,
            )[k].thread_id,
{
    let l = board_session_list(old, board_id);
    let p = |s: BoardSession| is_listed_on(s, board_id);
    let f = |o: BoardSession| session_at_position(o, moved_position(l, from, to, o.thread_id) as i64);
    lemma_board_session_list(old, board_id);
    lemma_board_session_list(new, board_id);
    crate::state::lemma_find_thread(l, thread);
    assert forall|i: int| #![trigger new.sessions[i]] 0 <= i < old.sessions.len() implies if p(old.sessions[i]) {
        new.sessions[i] == f(old.sessions[i]) && p(f(old.sessions[i]))
    } else {
        new.sessions[i] == old.sessions[i]
    } by {}
    lemma_filter_after_change(old.sessions, new.sessions, p, f);
    let of = old.sessions.filter(p);
    lemma_multiset_map(of, l, f);
    let lf = l.map_values(f);
    let m = listing_after_move(l, from, to);
    assert forall|k: int| 0 <= k < l.len() implies #[trigger] lf[k] == session_at_position(l[k], (if k == from { to } else if k == to { from } else { k }) as i64) by {
        crate::state::lemma_find_thread(l, l[k].thread_id);
        let q = find_thread(l, l[k].thread_id)->0;
        if q != k {
            assert(l[q].thread_id == l[k].thread_id);
        }
    }
    assert(m =~= lf.update(from, lf[to]).update(to, lf[from]));
    lemma_multiset_swap(lf, from, to);
    assert(positions_increase(m));
    lemma_position_order_unique(board_session_list(new, board_id), m);
}

/// Moving a session up and then down again gives back the board's listing,
/// with the sessions numbered 0, 1, 2, ... in that order.
pub proof fn law_move_up_then_down_restores_listing(
    s0: BoardsState,
    s1: BoardsState,
    s2: BoardsState,
    board_id: Seq<char>,
    thread: ThreadId,
    from: int,
    up_to: int,
    again: int,
    down_to: int,
)
    requires
        s0.wf(),
        s1.wf(),
        s2.wf(),
        board_session_list(s0, board_id).len() <= i64::MAX + 1,
        find_thread(board_session_list(s0, board_id), thread) == Some(from),
        move_target(from, BoardSessionMoveDirection::Up, board_session_list(s0, board_id).len() as int)
            == Some(up_to),
        sessions_changed(
            s0.sessions,
            s1.sessions,
            |s: BoardSession| is_listed_on(s, board_id),
            |o: BoardSession, n: BoardSession|
                n == session_at_position(
                    o,
                    moved_position(board_session_list(s0, board_id), from, up_to, o.thread_id) as i64,
                ),
        ),
        find_thread(board_session_list(s1, board_id), thread) == Some(again),
        move_target(again, BoardSessionMoveDirection::Down, board_session_list(s1, board_id).len() as int)
            == Some(down_to),
        sessions_changed(
            s1.sessions,
            s2.sessions,
            |s: BoardSession| is_listed_on(s, board_id),
            |o: BoardSession, n: BoardSession|
                n == session_at_position(
                    o,
                    moved_position(board_session_list(s1, board_id), again, down_to, o.thread_id) as i64,
                ),
        ),
    ensures
        again == up_to,
        down_to == from,
        board_session_list(s2, board_id).len() == board_session_list(s0, board_id).len(),
        forall|k: int|
            0 <= k < board_session_list(s2, board_id).len() ==> #[trigger] board_session_list(
                s2,
                board_id,
            )[k] == session_at_position(board_session_list(s0, board_id)[k], k as i64),
{
    let l0 = board_session_list(s0, board_id);
    crate::state::lemma_find_thread(l0, thread);
    law_move_swaps_neighbours(s0, s1, board_id, thread, BoardSessionMoveDirection::Up, from, up_to);
    let l1 = board_session_list(s1, board_id);
    lemma_board_session_list(s1, board_id);
    crate::state::lemma_find_thread(l1, thread);
    assert(l1.len() == l0.len());
    assert(l1[up_to].thread_id == thread);
    assert(l1[again].thread_id == thread);
    if again != up_to {
        assert(l1[again].thread_id != l1[up_to].thread_id);
    }
    law_move_swaps_neighbours(s1, s2, board_id, thread, BoardSessionMoveDirection::Down, again, down_to);
}

/// A session added to a board is listed last on it, with its title and an
/// unknown status, whether or not the board had a row for the thread before.
pub proof fn law_added_session_is_listed_last(
    old: BoardsState,
    new: BoardsState,
    board_id: Seq<char>,
    thread: ThreadId,
    title: Seq<char>,
    now: i64,
)
    requires
        old.wf(),
        new.wf(),
        if old.has_row(board_id, thread) {
            sessions_changed(
                old.sessions,
                new.sessions,
                |s: BoardSession| is_row_of(s, board_id, thread),
                |o: BoardSession, n: BoardSession|
                    session_readded(o, n, title, next_sort_order(old.sessions, board_id), now),
            )
        } else {
            &&& new.sessions.len() == old.sessions.len() + 1
            &&& new.sessions.drop_last() == old.sessions
            &&& session_added(
                new.sessions.last(),
                board_id,
                thread,
                title,
                next_sort_order(old.sessions, board_id),
                now,
            )
        },
    ensures
        board_session_list(new, board_id).len() > 0,
        board_session_list(new, board_id).last().thread_id == thread,
        board_session_list(new, board_id).last().title_snapshot@ == title,
        board_session_list(new, board_id).last().status == BoardSessionStatus::Unknown,
        board_session_list(new, board_id).last().added_at == now,
{
    let next = next_sort_order(old.sessions, board_id);
    lemma_max_active_sort_bounds(old.sessions, board_id);
    lemma_board_session_list(new, board_id);
    let l = board_session_list(new, board_id);
    // The index of the thread's row in the store after the change.
    let i: int = if old.has_row(board_id, thread) {
        choose|i: int| 0 <= i < old.sessions.len() && is_row_of(#[trigger] old.sessions[i], board_id, thread)
    } else {
        old.sessions.len() as int
    };
    if !old.has_row(board_id, thread) {
        assert(new.sessions[i] == new.sessions.last());
    }
    let row = new.sessions[i];
    assert(is_listed_on(row, board_id) && row.thread_id == thread && row.sort_order == next);
    // Every other listed row lies before it.
    assert forall|j: int| 0 <= j < new.sessions.len() && j != i && is_listed_on(#[trigger] new.sessions[j], board_id) implies new.sessions[j].sort_order < next by {
        if old.has_row(board_id, thread) {
            if is_row_of(old.sessions[j], board_id, thread) {
                assert(!is_row_of(old.sessions[j], old.sessions[i].board_id@, old.sessions[i].thread_id));
            }
            assert(new.sessions[j] == old.sessions[j]);
        } else {
            assert(new.sessions[j] == new.sessions.drop_last()[j]);
        }
    }
    assert(l.contains(row));
    let m = choose|m: int| 0 <= m < l.len() && l[m] == row;
    let last = l.len() - 1;
    if m < last {
        assert(is_listed_on(l[last], board_id) && new.sessions.contains(l[last]));
        let j = choose|j: int| 0 <= j < new.sessions.len() && new.sessions[j] == l[last];
        assert(l[m].sort_order < l[last].sort_order);
        if j == i {
            assert(l[last] == row);
        }
    }
}

/// A board never counts more sessions running, or needing attention, than it
/// has; together they count no more than it has.
pub proof fn law_status_counts_within_total(sessions: Seq<BoardSession>, board_id: Seq<char>)
    ensures
        count_board_sessions(sessions, board_id, Some(BoardSessionStatus::Running))
            + count_board_sessions(sessions, board_id, Some(BoardSessionStatus::NeedsAttention))
            <= count_board_sessions(sessions, board_id, None),
    decreases sessions.len(),
{
    if sessions.len() > 0 {
        law_status_counts_within_total(sessions.drop_last(), board_id);
    }
}

/// A session handed over to another thread keeps its place in the board's
/// listing, and every other listed session stays where it was, when no other
/// session of the board shares its position and time of adding (among such
/// sessions the thread decides the order).
#[verifier::spinoff_prover]
#[verifier::rlimit(30)]
pub proof fn law_handover_keeps_listing_place(
    old: BoardsState,
    new: BoardsState,
    board_id: Seq<char>,
    old_thread: ThreadId,
    new_thread: ThreadId,
    title: Seq<char>,
)
    requires
        old.wf(),
        new.wf(),
        old.has_active_row(board_id, old_thread),
        forall|i: int, j: int|
            0 <= i < old.sessions.len() && 0 <= j < old.sessions.len() && i != j && is_active_row_of(
                #[trigger] old.sessions[i],
                board_id,
                old_thread,
            ) && is_listed_on(#[trigger] old.sessions[j], board_id) ==> !(old.sessions[j].sort_order
                == old.sessions[i].sort_order && old.sessions[j].added_at == old.sessions[i].added_at),
        sessions_changed(
            old.sessions,
            new.sessions,
            |s: BoardSession| is_active_row_of(s, board_id, old_thread),
            |o: BoardSession, n: BoardSession| session_handed_over(o, n, new_thread, title),
        ),
    ensures
        find_thread(board_session_list(old, board_id), old_thread) is Some,
        board_session_list(new, board_id).len() == board_session_list(old, board_id).len(),
        ({
            let m = find_thread(board_session_list(old, board_id), old_thread)->0;
            &&& board_session_list(new, board_id)[m].thread_id == new_thread
            &&& board_session_list(new, board_id)[m].title_snapshot@ == title
            &&& board_session_list(new, board_id)[m].sort_order == board_session_list(old, board_id)[m].sort_order
            &&& forall|k: int|
                0 <= k < board_session_list(new, board_id).len() && k != m
                    ==> #[trigger] board_session_list(new, board_id)[k] == board_session_list(old, board_id)[k]
        }),
{
    let l = board_session_list(old, board_id);
    let p = |s: BoardSession| is_listed_on(s, board_id);
    lemma_board_session_list(old, board_id);
    lemma_board_session_list(new, board_id);
    let i = choose|i: int| 0 <= i < old.sessions.len() && is_active_row_of(#[trigger] old.sessions[i], board_id, old_thread);
    let row = new.sessions[i];
    assert(session_handed_over(old.sessions[i], row, new_thread, title));
    let f = |o: BoardSession| if is_active_row_of(o, board_id, old_thread) { row } else { o };
    assert forall|j: int| #![trigger new.sessions[j]] 0 <= j < old.sessions.len() implies if p(old.sessions[j]) {
        new.sessions[j] == f(old.sessions[j]) && p(f(old.sessions[j]))
    } else {
        new.sessions[j] == old.sessions[j]
    } by {
        if is_active_row_of(old.sessions[j], board_id, old_thread) && j != i {
            assert(!is_row_of(old.sessions[j], old.sessions[i].board_id@, old.sessions[i].thread_id));
        }
    }
    lemma_filter_after_change(old.sessions, new.sessions, p, f);
    lemma_multiset_map(old.sessions.filter(p), l, f);
    crate::state::lemma_find_thread(l, old_thread);
    assert(l.contains(old.sessions[i]));
    let m = find_thread(l, old_thread)->0;
    let q = choose|q: int| 0 <= q < l.len() && l[q] == old.sessions[i];
    if q != m {
        assert(l[q].thread_id != l[m].thread_id);
    }
    let target = l.update(m, row);
    assert(l.map_values(f) =~= target) by {
        assert forall|k: int| 0 <= k < l.len() implies #[trigger] l.map_values(f)[k] == target[k] by {
            if k != m && is_active_row_of(l[k], board_id, old_thread) {
                assert(l[k].thread_id != l[m].thread_id);
            }
        }
    }
    assert(positions_increase(target)) by {
        assert forall|a: int, b: int| 0 <= a < b < target.len() implies session_listed_before(
            #[trigger] target[a],
            #[trigger] target[b],
        ) by {
            assert(session_listed_before(l[a], l[b]));
            if a == m || b == m {
                let o = if a == m { b } else { a };
                assert(l.contains(l[o]));
                let j = choose|j: int| 0 <= j < old.sessions.len() && old.sessions[j] == l[o];
                assert(l[o].thread_id != l[m].thread_id);
                assert(is_listed_on(old.sessions[j], board_id));
                assert(j != i);
                assert(!(old.sessions[j].sort_order == old.sessions[i].sort_order
                    && old.sessions[j].added_at == old.sessions[i].added_at));
            }
        }
    }
    lemma_position_order_unique(board_session_list(new, board_id), target);
}

/// A session is listed on a board exactly when it is stored and active there.
proof fn lemma_listing_members(st: BoardsState, board_id: Seq<char>)
    requires
        st.wf(),
    ensures
        positions_increase(board_session_list(st, board_id)),
        forall|x: BoardSession|
            #[trigger] board_session_list(st, board_id).contains(x) <==> is_listed_on(x, board_id)
                && st.sessions.contains(x),
{
    lemma_board_session_list(st, board_id);
    let l = board_session_list(st, board_id);
    assert forall|x: BoardSession| #[trigger] l.contains(x) <==> is_listed_on(x, board_id) && st.sessions.contains(x) by {
        if l.contains(x) {
            let m = choose|m: int| 0 <= m < l.len() && l[m] == x;
            assert(is_listed_on(l[m], board_id));
        }
        if is_listed_on(x, board_id) && st.sessions.contains(x) {
            let j = choose|j: int| 0 <= j < st.sessions.len() && st.sessions[j] == x;
            assert(is_listed_on(st.sessions[j], board_id));
        }
    }
}

/// After a board is deleted it lists no session, it is not among the listed
/// boards, and every other board lists the same sessions in the same order.
#[verifier::spinoff_prover]
#[verifier::rlimit(30)]
pub proof fn law_deleted_board_listing(old: BoardsState, new: BoardsState, board_id: Seq<char>, other: Seq<char>)
    requires
        old.wf(),
        new.wf(),
        new.boards == old.boards.filter(|b: Board| b.id@ != board_id),
        new.sessions == old.sessions.filter(|s: BoardSession| s.board_id@ != board_id),
        other != board_id,
    ensures
        board_session_list(new, board_id).len() == 0,
        forall|k: int| 0 <= k < board_list(new).len() ==> (#[trigger] board_list(new)[k]).id@ != board_id,
        board_session_list(new, other) == board_session_list(old, other),
{
    broadcast use vstd::seq_lib::group_to_multiset_ensures;
    law_deleted_board_is_gone(old, new, board_id);
    lemma_listing_members(new, board_id);
    let l = board_session_list(new, board_id);
    if l.len() > 0 {
        assert(l.contains(l[0]));
        let i = choose|i: int| 0 <= i < new.sessions.len() && new.sessions[i] == l[0];
        assert(new.sessions[i].board_id@ != board_id);
    }
    lemma_sort_boards(new.boards);
    assert forall|k: int| 0 <= k < board_list(new).len() implies (#[trigger] board_list(new)[k]).id@ != board_id by {
        let x = board_list(new)[k];
        assert(board_list(new).contains(x));
        assert(board_list(new).to_multiset().count(x) > 0);
        assert(new.boards.contains(x));
        let i = choose|i: int| 0 <= i < new.boards.len() && new.boards[i] == x;
    }
    lemma_listing_members(new, other);
    lemma_listing_members(old, other);
    let ps = |s: BoardSession| s.board_id@ != board_id;
    assert forall|x: BoardSession|
        board_session_list(new, other).contains(x) <==> board_session_list(old, other).contains(x) by {
        if new.sessions.contains(x) {
            old.sessions.lemma_filter_contains_rev(ps, x);
        }
    }
    lemma_position_order_same_members(board_session_list(new, other), board_session_list(old, other));
}

/// Taking the session of `thread` off a board that lists it leaves the rest
/// of the board's listing as it was, in the same order.
#[verifier::spinoff_prover]
#[verifier::rlimit(30)]
pub proof fn law_removal_keeps_listing_order(
    old: BoardsState,
    new: BoardsState,
    board_id: Seq<char>,
    thread: ThreadId,
    now: i64,
)
    requires
        old.wf(),
        new.wf(),
        old.has_active_row(board_id, thread),
        sessions_changed(
            old.sessions,
            new.sessions,
            |s: BoardSession| is_active_row_of(s, board_id, thread),
            |o: BoardSession, n: BoardSession| n == session_removed(o, now),
        ),
    ensures
        find_thread(board_session_list(old, board_id), thread) is Some,
        board_session_list(new, board_id) == board_session_list(old, board_id).remove(
            find_thread(board_session_list(old, board_id), thread)->0,
        ),
{
    let l = board_session_list(old, board_id);
    lemma_listing_members(old, board_id);
    lemma_listing_members(new, board_id);
    lemma_board_session_list(old, board_id);
    crate::state::lemma_find_thread(l, thread);
    let i = choose|i: int| 0 <= i < old.sessions.len() && is_active_row_of(#[trigger] old.sessions[i], board_id, thread);
    let row = old.sessions[i];
    assert(l.contains(row));
    let q = choose|q: int| 0 <= q < l.len() && l[q] == row;
    let m = find_thread(l, thread)->0;
    if q != m {
        assert(l[q].thread_id != l[m].thread_id);
    }
    let target = l.remove(m);
    assert(positions_increase(target)) by {
        assert forall|a: int, b: int| 0 <= a < b < target.len() implies session_listed_before(
            #[trigger] target[a],
            #[trigger] target[b],
        ) by {
            let a1 = if a < m { a } else { a + 1 };
            let b1 = if b < m { b } else { b + 1 };
            assert(target[a] == l[a1] && target[b] == l[b1]);
        }
    }
    assert forall|x: BoardSession| board_session_list(new, board_id).contains(x) <==> target.contains(x) by {
        if board_session_list(new, board_id).contains(x) {
            let j = choose|j: int| 0 <= j < new.sessions.len() && new.sessions[j] == x;
            if is_active_row_of(old.sessions[j], board_id, thread) {
                assert(new.sessions[j] == session_removed(old.sessions[j], now));
                assert(false);
            }
            assert(old.sessions[j] == x);
            assert(old.sessions.contains(x));
            assert(l.contains(x));
            let k = choose|k: int| 0 <= k < l.len() && l[k] == x;
            assert(k != m);
            if k < m {
                assert(target[k] == x);
            } else {
                assert(target[k - 1] == x);
            }
        }
        if target.contains(x) {
            let k = choose|k: int| 0 <= k < target.len() && target[k] == x;
            let k1 = if k < m { k } else { k + 1 };
            assert(l[k1] == x);
            assert(l.contains(x));
            assert(x.thread_id != thread) by {
                if x.thread_id == thread {
                    assert(l[k1].thread_id == l[m].thread_id);
                }
            }
            let j = choose|j: int| 0 <= j < old.sessions.len() && old.sessions[j] == x;
            assert(!is_active_row_of(old.sessions[j], board_id, thread));
            assert(new.sessions[j] == x);
            assert(new.sessions.contains(x));
        }
    }
    lemma_position_order_same_members(board_session_list(new, board_id), target);
}

/// A session added to a board that did not list its thread is listed after
/// every session the board listed before, which keep their order.
#[verifier::spinoff_prover]
#[verifier::rlimit(30)]
pub proof fn law_added_session_extends_listing(
    old: BoardsState,
    new: BoardsState,
    board_id: Seq<char>,
    thread: ThreadId,
    title: Seq<char>,
    now: i64,
)
    requires
        old.wf(),
        new.wf(),
        !old.has_active_row(board_id, thread),
        if old.has_row(board_id, thread) {
            sessions_changed(
                old.sessions,
                new.sessions,
                |s: BoardSession| is_row_of(s, board_id, thread),
                |o: BoardSession, n: BoardSession|
                    session_readded(o, n, title, next_sort_order(old.sessions, board_id), now),
            )
        } else {
            &&& new.sessions.len() == old.sessions.len() + 1
            &&& new.sessions.drop_last() == old.sessions
            &&& session_added(
                new.sessions.last(),
                board_id,
                thread,
                title,
                next_sort_order(old.sessions, board_id),
                now,
            )
        },
    ensures
        board_session_list(new, board_id).len() == board_session_list(old, board_id).len() + 1,
        board_session_list(new, board_id).drop_last() == board_session_list(old, board_id),
        board_session_list(new, board_id).last().thread_id == thread,
        board_session_list(new, board_id).last().title_snapshot@ == title,
        board_session_list(new, board_id).last().status == BoardSessionStatus::Unknown,
        board_session_list(new, board_id).last().removed_at is None,
        board_session_list(new, board_id).last().sort_order == next_sort_order(old.sessions, board_id),
        forall|k: int|
            0 <= k < board_session_list(old, board_id).len() ==> (#[trigger] board_session_list(old, board_id)[k]).sort_order
                < board_session_list(new, board_id).last().sort_order,
{
    law_added_session_is_listed_last(old, new, board_id, thread, title, now);
    let next = next_sort_order(old.sessions, board_id);
    lemma_max_active_sort_bounds(old.sessions, board_id);
    lemma_listing_members(old, board_id);
    lemma_listing_members(new, board_id);
    let l = board_session_list(old, board_id);
    let nl = board_session_list(new, board_id);
    let i: int = if old.has_row(board_id, thread) {
        choose|i: int| 0 <= i < old.sessions.len() && is_row_of(#[trigger] old.sessions[i], board_id, thread)
    } else {
        old.sessions.len() as int
    };
    if !old.has_row(board_id, thread) {
        assert(new.sessions[i] == new.sessions.last());
    }
    let row = new.sessions[i];
    assert(is_listed_on(row, board_id) && row.thread_id == thread && row.sort_order == next);
    // The rows other than the new one are the old rows, in the same places.
    assert forall|j: int| 0 <= j < new.sessions.len() && j != i implies #[trigger] new.sessions[j] == old.sessions[j] by {
        if old.has_row(board_id, thread) {
            if is_row_of(old.sessions[j], board_id, thread) {
                assert(!is_row_of(old.sessions[j], old.sessions[i].board_id@, old.sessions[i].thread_id));
            }
        } else {
            assert(new.sessions[j] == new.sessions.drop_last()[j]);
        }
    }
    let target = l.push(row);
    assert forall|k: int| 0 <= k < l.len() implies (#[trigger] l[k]).sort_order < next by {
        assert(l.contains(l[k]));
        let j = choose|j: int| 0 <= j < old.sessions.len() && old.sessions[j] == l[k];
    }
    assert(positions_increase(target)) by {
        assert forall|a: int, b: int| 0 <= a < b < target.len() implies session_listed_before(
            #[trigger] target[a],
            #[trigger] target[b],
        ) by {
            assert(target[a] == l[a]);
            if b < l.len() {
                assert(target[b] == l[b]);
            }
        }
    }
    assert forall|x: BoardSession| nl.contains(x) <==> target.contains(x) by {
        if nl.contains(x) {
            let j = choose|j: int| 0 <= j < new.sessions.len() && new.sessions[j] == x;
            if j == i {
                assert(target[l.len() as int] == x);
            } else {
                assert(old.sessions[j] == x);
                assert(old.sessions.contains(x));
                assert(l.contains(x));
                let k = choose|k: int| 0 <= k < l.len() && l[k] == x;
                assert(target[k] == x);
            }
        }
        if target.contains(x) {
            let k = choose|k: int| 0 <= k < target.len() && target[k] == x;
            if k == l.len() {
                assert(new.sessions.contains(row));
            } else {
                assert(l[k] == x && l.contains(x));
                let j = choose|j: int| 0 <= j < old.sessions.len() && old.sessions[j] == x;
                if j == i {
                    assert(is_row_of(old.sessions[j], board_id, thread));
                    assert(is_active_row_of(old.sessions[j], board_id, thread));
                    assert(false);
                }
                assert(new.sessions[j] == x);
                assert(new.sessions.contains(x));
            }
        }
    }
    lemma_position_order_same_members(nl, target);
    assert(target.drop_last() =~= l);
}

/// Filtering two lists that hold the same elements keeps the same number.
proof fn lemma_filter_len_same_elements(a: Seq<BoardSession>, b: Seq<BoardSession>, q: spec_fn(BoardSession) -> bool)
    requires
        a.to_multiset() == b.to_multiset(),
    ensures
        a.filter(q).len() == b.filter(q).len(),
    decreases a.len(),
{
    broadcast use vstd::seq_lib::group_to_multiset_ensures;
    broadcast use vstd::multiset::group_multiset_axioms;
    broadcast use vstd::seq::group_seq_axioms;
    vstd::seq_lib::to_multiset_len(a);
    vstd::seq_lib::to_multiset_len(b);
    if a.len() == 0 {
        assert(b.len() == 0);
        assert(a.filter(q) =~= a);
        assert(b.filter(q) =~= b);
    } else {
        let x = a.last();
        let a0 = a.drop_last();
        assert(a0.push(x) =~= a);
        assert(a.to_multiset().count(x) > 0);
        assert(b.contains(x));
        let k = choose|k: int| 0 <= k < b.len() && b[k] == x;
        let b0 = b.remove(k);
        assert(b0.to_multiset() == b.to_multiset().remove(x));
        assert(a0.to_multiset() =~= b0.to_multiset()) by {
            assert(a.to_multiset() == a0.to_multiset().insert(x));
        }
        lemma_filter_len_same_elements(a0, b0, q);
        a0.lemma_filter_len_push(q, x);
        let front = b.take(k);
        let back = b.skip(k + 1);
        assert(b =~= front.push(x) + back);
        assert(b0 =~= front + back);
        Seq::filter_distributes_over_add(front.push(x), back, q);
        Seq::filter_distributes_over_add(front, back, q);
        front.lemma_filter_len_push(q, x);
    }
}

/// Counting a board's sessions of a status counts the stored rows listed on
/// it that have the status.
proof fn lemma_count_is_filter_len(sessions: Seq<BoardSession>, board_id: Seq<char>, status: Option<BoardSessionStatus>)
    ensures
        count_board_sessions(sessions, board_id, status) == sessions.filter(
            |s: BoardSession| is_listed_on(s, board_id) && (status is None || s.status == status->0),
        ).len(),
    decreases sessions.len(),
{
    let p = |s: BoardSession| is_listed_on(s, board_id) && (status is None || s.status == status->0);
    if sessions.len() == 0 {
        assert(sessions.filter(p) =~= sessions) by {
            reveal(Seq::filter);
        }
    } else {
        lemma_count_is_filter_len(sessions.drop_last(), board_id, status);
        assert(sessions.drop_last().push(sessions.last()) =~= sessions);
        sessions.drop_last().lemma_filter_len_push(p, sessions.last());
    }
}

/// Filtering twice is filtering once by both conditions.
proof fn lemma_filter_filter(s: Seq<BoardSession>, p: spec_fn(BoardSession) -> bool, q: spec_fn(BoardSession) -> bool)
    ensures
        s.filter(p).filter(q) == s.filter(|x: BoardSession| p(x) && q(x)),
    decreases s.len(),
{
    let pq = |x: BoardSession| p(x) && q(x);
    if s.len() == 0 {
        reveal(Seq::filter);
        assert(s.filter(p).filter(q) =~= s.filter(pq));
    } else {
        let s0 = s.drop_last();
        let x = s.last();
        lemma_filter_filter(s0, p, q);
        assert(s0.push(x) =~= s);
        s0.lemma_filter_push(x, p);
        s0.lemma_filter_push(x, pq);
        s0.filter(p).lemma_filter_push(x, q);
    }
}

/// The listed boards are the stored boards, each once and with its own
/// identifier; the number of sessions of a board, and of those with a
/// status, are the numbers its listing holds.
pub proof fn law_board_overviews_agree(st: BoardsState, board_id: Seq<char>, status: BoardSessionStatus)
    requires
        st.wf(),
    ensures
        board_list(st).len() == st.boards.len(),
        forall|b: Board| #[trigger] board_list(st).contains(b) <==> st.boards.contains(b),
        forall|i: int, j: int|
            0 <= i < board_list(st).len() && 0 <= j < board_list(st).len() && i != j
                ==> (#[trigger] board_list(st)[i]).id@ != (#[trigger] board_list(st)[j]).id@,
        board_session_list(st, board_id).len() == count_board_sessions(st.sessions, board_id, None),
        board_session_list(st, board_id).filter(|s: BoardSession| s.status == status).len()
            == count_board_sessions(st.sessions, board_id, Some(status)),
{
    broadcast use vstd::seq_lib::group_to_multiset_ensures;
    let l = board_list(st);
    lemma_sort_boards(st.boards);
    assert forall|b: Board| #[trigger] l.contains(b) <==> st.boards.contains(b) by {
        assert(l.contains(b) <==> l.to_multiset().count(b) > 0);
        assert(st.boards.contains(b) <==> st.boards.to_multiset().count(b) > 0);
    }
    assert(st.boards.no_duplicates()) by {
        assert forall|i: int, j: int| 0 <= i < st.boards.len() && 0 <= j < st.boards.len() && i != j implies st.boards[i] != st.boards[j] by {
            assert(st.boards[i].id@ != st.boards[j].id@);
        }
    }
    st.boards.lemma_multiset_has_no_duplicates();
    l.lemma_multiset_has_no_duplicates_conv();
    assert forall|i: int, j: int|
        0 <= i < l.len() && 0 <= j < l.len() && i != j implies (#[trigger] l[i]).id@ != (#[trigger] l[j]).id@ by {
        assert(l.contains(l[i]) && l.contains(l[j]));
        let p = choose|p: int| 0 <= p < st.boards.len() && st.boards[p] == l[i];
        let q = choose|q: int| 0 <= q < st.boards.len() && st.boards[q] == l[j];
        if p == q {
            assert(l[i] == l[j]);
        }
    }
    lemma_board_session_list(st, board_id);
    let listed = |s: BoardSession| is_listed_on(s, board_id);
    let f = st.sessions.filter(listed);
    let ls = board_session_list(st, board_id);
    lemma_count_is_filter_len(st.sessions, board_id, None);
    let p_none = |s: BoardSession| is_listed_on(s, board_id) && (None::<BoardSessionStatus> is None || s.status == None::<BoardSessionStatus>->0);
    assert(p_none =~= listed);
    assert(ls.len() == f.len()) by {
        assert(ls.to_multiset().len() == f.to_multiset().len());
    }
    let q = |s: BoardSession| s.status == status;
    lemma_filter_len_same_elements(ls, f, q);
    lemma_filter_filter(st.sessions, listed, q);
    lemma_count_is_filter_len(st.sessions, board_id, Some(status));
    let p_some = |s: BoardSession| is_listed_on(s, board_id) && (Some(status) is None || s.status == Some(status)->0);
    assert(p_some =~= (|x: BoardSession| listed(x) && q(x)));
}

/// Saving a store as rows and reading the rows back gives the same store:
/// every row converts, the converted boards and sessions are the stored
/// ones, in the same order, and so every listing (boards, and each board's
/// sessions with their order and statuses) is as before, when every stored
/// time can be represented.
pub proof fn law_stored_rows_load_back(
    st: BoardsState,
    board_rows: Seq<BoardRow>,
    session_rows: Seq<BoardSessionRow>,
)
    requires
        st.wf(),
        board_rows.len() == st.boards.len(),
        forall|i: int| 0 <= i < st.boards.len() ==> board_row_of(#[trigger] board_rows[i], st.boards[i]),
        forall|i: int| 0 <= i < st.boards.len() ==> board_times_representable(#[trigger] st.boards[i]),
        session_rows.len() == st.sessions.len(),
        forall|i: int| 0 <= i < st.sessions.len() ==> session_row_of(#[trigger] session_rows[i], st.sessions[i]),
        forall|i: int| 0 <= i < st.sessions.len() ==> session_times_representable(#[trigger] st.sessions[i]),
    ensures
        forall|i: int| 0 <= i < board_rows.len() ==> (#[trigger] board_row_error(board_rows[i])) is None,
        forall|i: int| 0 <= i < session_rows.len() ==> (#[trigger] session_row_error(session_rows[i])) is None,
        (BoardsState {
            boards: board_rows.map_values(|row: BoardRow| board_of_row(row)),
            sessions: session_rows.map_values(|row: BoardSessionRow| session_of_row(row)),
        }) == st,
        ({
            let loaded = BoardsState {
                boards: board_rows.map_values(|row: BoardRow| board_of_row(row)),
                sessions: session_rows.map_values(|row: BoardSessionRow| session_of_row(row)),
            };
            &&& board_list(loaded) == board_list(st)
            &&& forall|b: Seq<char>| #[trigger] board_session_list(loaded, b) == board_session_list(st, b)
        }),
{
    assert forall|i: int| 0 <= i < board_rows.len() implies (#[trigger] board_row_error(board_rows[i])) is None
        && board_of_row(board_rows[i]) == st.boards[i] by {
        assert(board_row_of(board_rows[i], st.boards[i]));
        assert(board_times_representable(st.boards[i]));
    }
    assert forall|i: int| 0 <= i < session_rows.len() implies (#[trigger] session_row_error(session_rows[i])) is None
        && session_of_row(session_rows[i]) == st.sessions[i] by {
        assert(session_row_of(session_rows[i], st.sessions[i]));
        assert(session_times_representable(st.sessions[i]));
        crate::status::lemma_status_text_round_trip(st.sessions[i].status, session_rows[i].status@);
    }
    assert(board_rows.map_values(|row: BoardRow| board_of_row(row)) =~= st.boards);
    let f = |row: BoardSessionRow| session_of_row(row);
    let m = session_rows.map_values(f);
    assert forall|i: int| 0 <= i < session_rows.len() implies #[trigger] m[i] == st.sessions[i] by {
        assert(session_row_error(session_rows[i]) is None);
    }
    assert(m =~= st.sessions);
}

/// Changing the listed session of `thread` in place, keeping its board,
/// thread, position, time of adding and activity, changes that entry of the
/// board's listing and nothing else.
#[verifier::spinoff_prover]
#[verifier::rlimit(30)]
proof fn lemma_listing_after_entry_change(
    old: BoardsState,
    new: BoardsState,
    board_id: Seq<char>,
    thread: ThreadId,
    i: int,
)
    requires
        old.wf(),
        new.wf(),
        0 <= i < old.sessions.len(),
        is_active_row_of(old.sessions[i], board_id, thread),
        new.sessions == old.sessions.update(i, new.sessions[i]),
        new.sessions[i].board_id == old.sessions[i].board_id,
        new.sessions[i].thread_id == old.sessions[i].thread_id,
        new.sessions[i].sort_order == old.sessions[i].sort_order,
        new.sessions[i].added_at == old.sessions[i].added_at,
        new.sessions[i].removed_at == old.sessions[i].removed_at,
    ensures
        find_thread(board_session_list(old, board_id), thread) is Some,
        board_session_list(new, board_id) == board_session_list(old, board_id).update(
            find_thread(board_session_list(old, board_id), thread)->0,
            new.sessions[i],
        ),
{
    let l = board_session_list(old, board_id);
    let row = new.sessions[i];
    lemma_listing_members(old, board_id);
    lemma_listing_members(new, board_id);
    lemma_board_session_list(old, board_id);
    crate::state::lemma_find_thread(l, thread);
    assert(l.contains(old.sessions[i]));
    let q = choose|q: int| 0 <= q < l.len() && l[q] == old.sessions[i];
    let m = find_thread(l, thread)->0;
    if q != m {
        assert(l[q].thread_id != l[m].thread_id);
    }
    let target = l.update(m, row);
    assert(positions_increase(target)) by {
        assert forall|a: int, b: int| 0 <= a < b < target.len() implies session_listed_before(
            #[trigger] target[a],
            #[trigger] target[b],
        ) by {
            assert(session_listed_before(l[a], l[b]));
        }
    }
    assert forall|x: BoardSession| board_session_list(new, board_id).contains(x) <==> target.contains(x) by {
        if board_session_list(new, board_id).contains(x) {
            let j = choose|j: int| 0 <= j < new.sessions.len() && new.sessions[j] == x;
            if j == i {
                assert(target[m] == x);
            } else {
                assert(old.sessions[j] == x);
                assert(l.contains(x));
                let k = choose|k: int| 0 <= k < l.len() && l[k] == x;
                if k == m {
                    assert(!is_row_of(old.sessions[j], old.sessions[i].board_id@, old.sessions[i].thread_id));
                }
                assert(target[k] == x);
            }
        }
        if target.contains(x) {
            let k = choose|k: int| 0 <= k < target.len() && target[k] == x;
            if k == m {
                assert(new.sessions[i] == x);
                assert(new.sessions.contains(x));
            } else {
                assert(l[k] == x && l.contains(x));
                assert(l[k].thread_id != l[m].thread_id);
                let j = choose|j: int| 0 <= j < old.sessions.len() && old.sessions[j] == x;
                assert(j != i);
                assert(new.sessions[j] == x);
                assert(new.sessions.contains(x));
            }
        }
    }
    lemma_position_order_same_members(board_session_list(new, board_id), target);
}

/// The index of the only row that `sessions_changed` picks for the active
/// session of `thread` on `board_id`, with every other row kept.
proof fn lemma_single_row_change(
    old: BoardsState,
    new: BoardsState,
    board_id: Seq<char>,
    thread: ThreadId,
    rel: spec_fn(BoardSession, BoardSession) -> bool,
) -> (i: int)
    requires
        old.wf(),
        old.has_active_row(board_id, thread),
        sessions_changed(old.sessions, new.sessions, |s: BoardSession| is_active_row_of(s, board_id, thread), rel),
    ensures
        0 <= i < old.sessions.len(),
        is_active_row_of(old.sessions[i], board_id, thread),
        rel(old.sessions[i], new.sessions[i]),
        new.sessions == old.sessions.update(i, new.sessions[i]),
{
    let i = choose|i: int| 0 <= i < old.sessions.len() && is_active_row_of(#[trigger] old.sessions[i], board_id, thread);
    assert forall|j: int| 0 <= j < old.sessions.len() && j != i implies #[trigger] new.sessions[j] == old.sessions[j] by {
        if is_active_row_of(old.sessions[j], board_id, thread) {
            assert(!is_row_of(old.sessions[j], old.sessions[i].board_id@, old.sessions[i].thread_id));
        }
    }
    assert(new.sessions =~= old.sessions.update(i, new.sessions[i]));
    i
}

/// Whether `new` holds every session of the boards other than `board_id` as `old` does.
pub open spec fn other_boards_kept(old: BoardsState, new: BoardsState, board_id: Seq<char>) -> bool {
    forall|other: Seq<char>| other != board_id ==> #[trigger] board_session_list(new, other) == board_session_list(old, other)
}

/// Keeping every row of the boards other than `board_id` keeps their listings.
proof fn lemma_other_boards_kept(old: BoardsState, new: BoardsState, board_id: Seq<char>)
    requires
        old.wf(),
        new.wf(),
        new.sessions.len() == old.sessions.len(),
        forall|j: int| 0 <= j < old.sessions.len() && (#[trigger] old.sessions[j]).board_id@ != board_id ==> new.sessions[j] == old.sessions[j],
        forall|j: int| 0 <= j < old.sessions.len() && (#[trigger] old.sessions[j]).board_id@ == board_id ==> new.sessions[j].board_id@ == board_id,
    ensures
        other_boards_kept(old, new, board_id),
{
    assert forall|other: Seq<char>| other != board_id implies #[trigger] board_session_list(new, other) == board_session_list(old, other) by {
        lemma_listing_members(old, other);
        lemma_listing_members(new, other);
        assert forall|x: BoardSession| board_session_list(new, other).contains(x) <==> board_session_list(old, other).contains(x) by {
            if board_session_list(new, other).contains(x) {
                let j = choose|j: int| 0 <= j < new.sessions.len() && new.sessions[j] == x;
                if old.sessions[j].board_id@ == board_id {
                    assert(new.sessions[j].board_id@ == board_id);
                }
                assert(old.sessions[j] == x);
                assert(old.sessions.contains(x));
            }
            if board_session_list(old, other).contains(x) {
                let j = choose|j: int| 0 <= j < old.sessions.len() && old.sessions[j] == x;
                assert(new.sessions[j] == x);
                assert(new.sessions.contains(x));
            }
        }
        lemma_position_order_same_members(board_session_list(new, other), board_session_list(old, other));
    }
}

/// Retitling the session of `thread` on a board changes only the title of
/// its entry in the board's listing; a board that does not list the thread,
/// and every other board, lists the same sessions as before.
pub proof fn law_retitle_keeps_listing(
    old: BoardsState,
    new: BoardsState,
    board_id: Seq<char>,
    thread: ThreadId,
    title: Seq<char>,
)
    requires
        old.wf(),
        new.wf(),
        sessions_changed(
            old.sessions,
            new.sessions,
            |s: BoardSession| is_active_row_of(s, board_id, thread),
            |o: BoardSession, n: BoardSession| session_retitled(o, n, title),
        ),
    ensures
        !old.has_active_row(board_id, thread) ==> board_session_list(new, board_id) == board_session_list(old, board_id),
        old.has_active_row(board_id, thread) ==> {
            let l = board_session_list(old, board_id);
            let m = find_thread(l, thread)->0;
            &&& find_thread(l, thread) is Some
            &&& board_session_list(new, board_id).len() == l.len()
            &&& session_retitled(l[m], board_session_list(new, board_id)[m], title)
            &&& forall|k: int| 0 <= k < l.len() && k != m ==> #[trigger] board_session_list(new, board_id)[k] == l[k]
        },
        other_boards_kept(old, new, board_id),
{
    let rel = |o: BoardSession, n: BoardSession| session_retitled(o, n, title);
    if old.has_active_row(board_id, thread) {
        let i = lemma_single_row_change(old, new, board_id, thread, rel);
        lemma_listing_after_entry_change(old, new, board_id, thread, i);
        let l = board_session_list(old, board_id);
        lemma_board_session_list(old, board_id);
        crate::state::lemma_find_thread(l, thread);
        assert(l.contains(old.sessions[i]));
        let q = choose|q: int| 0 <= q < l.len() && l[q] == old.sessions[i];
        if q != find_thread(l, thread)->0 {
            assert(l[q].thread_id != l[find_thread(l, thread)->0].thread_id);
        }
    } else {
        assert(new.sessions =~= old.sessions) by {
            assert forall|j: int| 0 <= j < old.sessions.len() implies new.sessions[j] == old.sessions[j] by {
                if is_active_row_of(old.sessions[j], board_id, thread) {
                    assert(old.has_active_row(board_id, thread));
                }
            }
        }
    }
    assert forall|j: int| 0 <= j < old.sessions.len() && (#[trigger] old.sessions[j]).board_id@ != board_id implies new.sessions[j] == old.sessions[j] by {}
    assert forall|j: int| 0 <= j < old.sessions.len() && (#[trigger] old.sessions[j]).board_id@ == board_id implies new.sessions[j].board_id@ == board_id by {}
    lemma_other_boards_kept(old, new, board_id);
}

/// Setting the status of the session of `thread` on a board changes only
/// the status of its entry in the board's listing; a board that does not
/// list the thread, and every other board (the same thread's sessions there
/// included), lists the same sessions as before.
pub proof fn law_status_change_keeps_listing(
    old: BoardsState,
    new: BoardsState,
    board_id: Seq<char>,
    thread: ThreadId,
    status: BoardSessionStatus,
)
    requires
        old.wf(),
        new.wf(),
        sessions_changed(
            old.sessions,
            new.sessions,
            |s: BoardSession| is_active_row_of(s, board_id, thread),
            |o: BoardSession, n: BoardSession| n == session_with_status(o, status),
        ),
    ensures
        !old.has_active_row(board_id, thread) ==> board_session_list(new, board_id) == board_session_list(old, board_id),
        old.has_active_row(board_id, thread) ==> {
            let l = board_session_list(old, board_id);
            let m = find_thread(l, thread)->0;
            &&& find_thread(l, thread) is Some
            &&& board_session_list(new, board_id) == l.update(m, session_with_status(l[m], status))
        },
        other_boards_kept(old, new, board_id),
{
    let rel = |o: BoardSession, n: BoardSession| n == session_with_status(o, status);
    if old.has_active_row(board_id, thread) {
        let i = lemma_single_row_change(old, new, board_id, thread, rel);
        lemma_listing_after_entry_change(old, new, board_id, thread, i);
        let l = board_session_list(old, board_id);
        lemma_board_session_list(old, board_id);
        crate::state::lemma_find_thread(l, thread);
        assert(l.contains(old.sessions[i]));
        let q = choose|q: int| 0 <= q < l.len() && l[q] == old.sessions[i];
        if q != find_thread(l, thread)->0 {
            assert(l[q].thread_id != l[find_thread(l, thread)->0].thread_id);
        }
    } else {
        assert(new.sessions =~= old.sessions) by {
            assert forall|j: int| 0 <= j < old.sessions.len() implies new.sessions[j] == old.sessions[j] by {
                if is_active_row_of(old.sessions[j], board_id, thread) {
                    assert(old.has_active_row(board_id, thread));
                }
            }
        }
    }
    assert forall|j: int| 0 <= j < old.sessions.len() && (#[trigger] old.sessions[j]).board_id@ != board_id implies new.sessions[j] == old.sessions[j] by {}
    assert forall|j: int| 0 <= j < old.sessions.len() && (#[trigger] old.sessions[j]).board_id@ == board_id implies new.sessions[j].board_id@ == board_id by {}
    lemma_other_boards_kept(old, new, board_id);
}

/// Adding a session whose thread the board already lists moves its entry to
/// the end of the listing, past every other entry's position, titled anew
/// with an unknown status; the other entries keep their order, and the
/// thread is listed once.
#[verifier::spinoff_prover]
#[verifier::rlimit(60)]
pub proof fn law_readding_listed_session_moves_it_last(
    old: BoardsState,
    new: BoardsState,
    board_id: Seq<char>,
    thread: ThreadId,
    title: Seq<char>,
    now: i64,
)
    requires
        old.wf(),
        new.wf(),
        old.has_active_row(board_id, thread),
        sessions_changed(
            old.sessions,
            new.sessions,
            |s: BoardSession| is_row_of(s, board_id, thread),
            |o: BoardSession, n: BoardSession|
                session_readded(o, n, title, next_sort_order(old.sessions, board_id), now),
        ),
    ensures
        find_thread(board_session_list(old, board_id), thread) is Some,
        ({
            let l = board_session_list(old, board_id);
            let nl = board_session_list(new, board_id);
            let m = find_thread(l, thread)->0;
            &&& nl.len() == l.len()
            &&& nl.drop_last() == l.remove(m)
            &&& nl.last().thread_id == thread
            &&& nl.last().title_snapshot@ == title
            &&& nl.last().status == BoardSessionStatus::Unknown
            &&& nl.last().sort_order == next_sort_order(old.sessions, board_id)
            &&& forall|k: int| 0 <= k < nl.len() - 1 ==> (#[trigger] nl[k]).thread_id != thread
        }),
{
    let next = next_sort_order(old.sessions, board_id);
    lemma_max_active_sort_bounds(old.sessions, board_id);
    lemma_listing_members(old, board_id);
    lemma_listing_members(new, board_id);
    lemma_board_session_list(old, board_id);
    lemma_board_session_list(new, board_id);
    let l = board_session_list(old, board_id);
    let nl = board_session_list(new, board_id);
    crate::state::lemma_find_thread(l, thread);
    let i = choose|i: int| 0 <= i < old.sessions.len() && is_active_row_of(#[trigger] old.sessions[i], board_id, thread);
    assert(is_row_of(old.sessions[i], board_id, thread));
    let row = new.sessions[i];
    assert(is_listed_on(row, board_id) && row.thread_id == thread && row.sort_order == next);
    assert forall|j: int| 0 <= j < new.sessions.len() && j != i implies #[trigger] new.sessions[j] == old.sessions[j] by {
        if is_row_of(old.sessions[j], board_id, thread) {
            assert(!is_row_of(old.sessions[j], old.sessions[i].board_id@, old.sessions[i].thread_id));
        }
    }
    assert(l.contains(old.sessions[i]));
    let q = choose|q: int| 0 <= q < l.len() && l[q] == old.sessions[i];
    let m = find_thread(l, thread)->0;
    if q != m {
        assert(l[q].thread_id != l[m].thread_id);
    }
    assert forall|k: int| 0 <= k < l.len() implies (#[trigger] l[k]).sort_order < next by {
        assert(l.contains(l[k]));
        let j = choose|j: int| 0 <= j < old.sessions.len() && old.sessions[j] == l[k];
    }
    let rest = l.remove(m);
    let target = rest.push(row);
    assert(positions_increase(target)) by {
        assert forall|a: int, b: int| 0 <= a < b < target.len() implies session_listed_before(
            #[trigger] target[a],
            #[trigger] target[b],
        ) by {
            let a1 = if a < m { a } else { a + 1 };
            assert(target[a] == l[a1]);
            if b < rest.len() {
                let b1 = if b < m { b } else { b + 1 };
                assert(target[b] == l[b1]);
            } else {
                assert(target[b] == row);
            }
        }
    }
    assert forall|x: BoardSession| nl.contains(x) <==> target.contains(x) by {
        if nl.contains(x) {
            let j = choose|j: int| 0 <= j < new.sessions.len() && new.sessions[j] == x;
            if j == i {
                assert(target[rest.len() as int] == x);
            } else {
                assert(old.sessions[j] == x);
                assert(l.contains(x));
                let k = choose|k: int| 0 <= k < l.len() && l[k] == x;
                if k == m {
                    assert(!is_row_of(old.sessions[j], old.sessions[i].board_id@, old.sessions[i].thread_id));
                }
                if k < m {
                    assert(target[k] == x);
                } else {
                    assert(target[k - 1] == x);
                }
            }
        }
        if target.contains(x) {
            let k = choose|k: int| 0 <= k < target.len() && target[k] == x;
            if k == rest.len() {
                assert(new.sessions.contains(row));
            } else {
                let k1 = if k < m { k } else { k + 1 };
                assert(l[k1] == x && l.contains(x));
                assert(l[k1].thread_id != l[m].thread_id);
                let j = choose|j: int| 0 <= j < old.sessions.len() && old.sessions[j] == x;
                assert(j != i);
                assert(new.sessions[j] == x);
                assert(new.sessions.contains(x));
            }
        }
    }
    lemma_position_order_same_members(nl, target);
    assert(target.drop_last() =~= rest);
    assert forall|k: int| 0 <= k < nl.len() - 1 implies (#[trigger] nl[k]).thread_id != thread by {
        assert(nl[k] == rest[k]);
        let k1 = if k < m { k } else { k + 1 };
        assert(rest[k] == l[k1]);
        assert(l[k1].thread_id != l[m].thread_id);
    }
}

/// Marking the session of `thread` on a board seen keeps its status when it
/// is running, waiting for approval or errored, and makes it seen otherwise;
/// every other row stays as it was.
pub proof fn law_marking_seen_keeps_running_waiting_and_errored(
    old: BoardsState,
    new: BoardsState,
    board_id: Seq<char>,
    thread: ThreadId,
)
    requires
        sessions_changed(
            old.sessions,
            new.sessions,
            |s: BoardSession| is_active_row_of(s, board_id, thread),
            |o: BoardSession, n: BoardSession| n == session_seen(o),
        ),
    ensures
        new.sessions.len() == old.sessions.len(),
        forall|i: int|
            0 <= i < old.sessions.len() ==> {
                let o = #[trigger] old.sessions[i];
                if is_active_row_of(o, board_id, thread) {
                    &&& (o.status == BoardSessionStatus::Running || o.status == BoardSessionStatus::WaitingApproval
                        || o.status == BoardSessionStatus::Errored) ==> new.sessions[i].status == o.status
                    &&& !(o.status == BoardSessionStatus::Running || o.status == BoardSessionStatus::WaitingApproval
                        || o.status == BoardSessionStatus::Errored) ==> new.sessions[i].status
                        == BoardSessionStatus::Seen
                } else {
                    new.sessions[i] == o
                }
            },
{
    assert forall|i: int| 0 <= i < old.sessions.len() implies {
        let o = #[trigger] old.sessions[i];
        if is_active_row_of(o, board_id, thread) {
            &&& (o.status == BoardSessionStatus::Running || o.status == BoardSessionStatus::WaitingApproval
                || o.status == BoardSessionStatus::Errored) ==> new.sessions[i].status == o.status
            &&& !(o.status == BoardSessionStatus::Running || o.status == BoardSessionStatus::WaitingApproval
                || o.status == BoardSessionStatus::Errored) ==> new.sessions[i].status == BoardSessionStatus::Seen
        } else {
            new.sessions[i] == o
        }
    } by {
        if is_active_row_of(old.sessions[i], board_id, thread) {
            assert(new.sessions[i] == session_seen(old.sessions[i]));
        }
    }
}

/// The boards are listed most recently updated first: of two listed boards,
/// the earlier one was updated later, or at the same time with a name that
/// sorts no later.
pub proof fn law_boards_listed_most_recently_updated_first(st: BoardsState)
    ensures
        forall|i: int, j: int|
            0 <= i < j < board_list(st).len() ==> (#[trigger] board_list(st)[i]).updated_at > (#[trigger] board_list(
                st,
            )[j]).updated_at || (board_list(st)[i].updated_at == board_list(st)[j].updated_at
                && crate::text::text_le(board_list(st)[i].name@, board_list(st)[j].name@)),
{
    lemma_sort_boards(st.boards);
    let l = board_list(st);
    assert forall|i: int, j: int| 0 <= i < j < l.len() implies (#[trigger] l[i]).updated_at > (#[trigger] l[j]).updated_at
        || (l[i].updated_at == l[j].updated_at && crate::text::text_le(l[i].name@, l[j].name@)) by {
        lemma_listed_boards_ordered(l, i, j);
    }
}

proof fn lemma_listed_boards_ordered(l: Seq<Board>, i: int, j: int)
    requires
        crate::ordering::boards_in_listing_order(l),
        0 <= i < j < l.len(),
    ensures
        l[i].updated_at > l[j].updated_at || (l[i].updated_at == l[j].updated_at && crate::text::text_le(
            l[i].name@,
            l[j].name@,
        )),
    decreases j - i,
{
    assert(crate::ordering::board_listed_before(l[j - 1], l[j]));
    if i < j - 1 {
        lemma_listed_boards_ordered(l, i, j - 1);
        if l[i].updated_at == l[j].updated_at {
            crate::text::lemma_text_le_transitive(l[i].name@, l[j - 1].name@, l[j].name@);
        }
    }
}

} // verus!
