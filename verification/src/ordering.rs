//! The orders in which boards and board sessions are listed: sessions by
//! their position on the board, then by when they were added; boards most
//! recently updated first and then by name. Both are defined as insertion into an ordered list.

use vstd::prelude::*;
use crate::model::{Board, BoardSession};
use crate::text::{text_le, lemma_text_le_total};

verus! {

broadcast use vstd::seq_lib::group_to_multiset_ensures;

/// Whether session `a` is listed before session `b` on a board: by position,
/// then by the time it was added, then (only for sessions alike in both) by
/// thread identifier.
pub open spec fn session_listed_before(a: BoardSession, b: BoardSession) -> bool {
    ||| a.sort_order < b.sort_order
    ||| a.sort_order == b.sort_order && a.added_at < b.added_at
    ||| a.sort_order == b.sort_order && a.added_at == b.added_at && a.thread_id.uuid < b.thread_id.uuid
}

/// Whether two sessions share position, time of adding and thread.
pub open spec fn same_listing_key(a: BoardSession, b: BoardSession) -> bool {
    a.sort_order == b.sort_order && a.added_at == b.added_at && a.thread_id.uuid == b.thread_id.uuid
}

/// Whether a list of sessions is in strictly increasing listing order.
pub open spec fn positions_increase(l: Seq<BoardSession>) -> bool {
    forall|i: int, j: int| 0 <= i < j < l.len() ==> session_listed_before(#[trigger] l[i], #[trigger] l[j])
}

/// Whether no two sessions of a list share position, time of adding and thread.
pub open spec fn positions_distinct(l: Seq<BoardSession>) -> bool {
    forall|i: int, j: int|
        0 <= i < l.len() && 0 <= j < l.len() && i != j ==> !same_listing_key(#[trigger] l[i], #[trigger] l[j])
}

/// Where `x` goes in a list in listing order: before the first session
/// that it is listed before.
pub open spec fn position_insertion_point(l: Seq<BoardSession>, x: BoardSession) -> int
    decreases l.len(),
{
    if l.len() == 0 {
        0
    } else if session_listed_before(x, l[0]) {
        0
    } else {
        1 + position_insertion_point(l.drop_first(), x)
    }
}

/// A list of sessions in listing order: each is put in its place in turn.
pub open spec fn sort_by_position(l: Seq<BoardSession>) -> Seq<BoardSession>
    decreases l.len(),
{
    if l.len() == 0 {
        l
    } else {
        let rest = sort_by_position(l.drop_last());
        rest.insert(position_insertion_point(rest, l.last()), l.last())
    }
}

/// The insertion point lies in the list; `x` is not listed before the
/// sessions before it, and in an ordered list it is listed before those after it.
pub proof fn lemma_position_insertion_point(l: Seq<BoardSession>, x: BoardSession)
    ensures
        0 <= position_insertion_point(l, x) <= l.len(),
        forall|k: int|
            0 <= k < position_insertion_point(l, x) ==> !session_listed_before(x, #[trigger] l[k]),
        positions_increase(l) ==> forall|k: int|
            position_insertion_point(l, x) <= k < l.len() ==> session_listed_before(x, #[trigger] l[k]),
    decreases l.len(),
{
    if l.len() > 0 && !session_listed_before(x, l[0]) {
        lemma_position_insertion_point(l.drop_first(), x);
        let p = position_insertion_point(l, x);
        assert forall|k: int| 0 <= k < p implies !session_listed_before(x, #[trigger] l[k]) by {
            if k > 0 {
                assert(l[k] == l.drop_first()[k - 1]);
            }
        }
        if positions_increase(l) {
            assert(positions_increase(l.drop_first()));
            assert forall|k: int| p <= k < l.len() implies session_listed_before(x, #[trigger] l[k]) by {
                assert(l[k] == l.drop_first()[k - 1]);
            }
        }
    }
}

/// Sorting keeps the sessions, and puts them in strictly increasing listing
/// order when no two share position, time of adding and thread.
pub proof fn lemma_sort_by_position(l: Seq<BoardSession>)
    ensures
        sort_by_position(l).len() == l.len(),
        sort_by_position(l).to_multiset() == l.to_multiset(),
        positions_distinct(l) ==> positions_increase(sort_by_position(l)),
    decreases l.len(),
{
    if l.len() > 0 {
        let init = l.drop_last();
        let x = l.last();
        lemma_sort_by_position(init);
        let rest = sort_by_position(init);
        let p = position_insertion_point(rest, x);
        lemma_position_insertion_point(rest, x);
        assert(l =~= init.push(x));
        assert(rest.insert(p, x).to_multiset() == rest.to_multiset().insert(x));
        if positions_distinct(l) {
            assert(positions_distinct(init)) by {
                assert forall|i: int, j: int|
                    0 <= i < init.len() && 0 <= j < init.len() && i != j implies !same_listing_key(
                        #[trigger] init[i],
                        #[trigger] init[j],
                    ) by {
                    assert(init[i] == l[i] && init[j] == l[j]);
                }
            }
            let r = rest.insert(p, x);
            assert forall|k: int| 0 <= k < rest.len() implies !same_listing_key(#[trigger] rest[k], x) by {
                assert(rest.to_multiset().count(rest[k]) > 0);
                assert(init.contains(rest[k]));
                let j = choose|j: int| 0 <= j < init.len() && init[j] == rest[k];
                assert(l[j] == rest[k]);
                assert(l[l.len() - 1] == x);
            }
            assert forall|i: int, j: int| 0 <= i < j < r.len() implies session_listed_before(#[trigger] r[i], #[trigger] r[j]) by {
                if j < p {
                    assert(r[i] == rest[i] && r[j] == rest[j]);
                } else if j == p {
                    assert(r[i] == rest[i]);
                } else if i < p {
                    assert(r[i] == rest[i] && r[j] == rest[j - 1]);
                } else if i == p {
                    assert(r[j] == rest[j - 1]);
                } else {
                    assert(r[i] == rest[i - 1] && r[j] == rest[j - 1]);
                }
            }
        }
    }
}

/// Two lists in strictly increasing listing order that hold the same
/// sessions are the same list.
pub proof fn lemma_position_order_unique(a: Seq<BoardSession>, b: Seq<BoardSession>)
    requires
        positions_increase(a),
        positions_increase(b),
        a.to_multiset() == b.to_multiset(),
    ensures
        a == b,
    decreases a.len(),
{
    broadcast use vstd::multiset::group_multiset_axioms;
    vstd::seq_lib::to_multiset_len(a);
    vstd::seq_lib::to_multiset_len(b);
    if a.len() == 0 {
        assert(b.len() == 0);
        assert(a =~= b);
    } else {
        assert(b.len() == a.len());
        assert(a.to_multiset().count(a[0]) > 0);
        assert(b.contains(a[0]));
        let k = choose|k: int| 0 <= k < b.len() && b[k] == a[0];
        assert(b.to_multiset().count(b[0]) > 0);
        assert(a.contains(b[0]));
        let m = choose|m: int| 0 <= m < a.len() && a[m] == b[0];
        if k > 0 {
            assert(session_listed_before(b[0], b[k]));
            if m > 0 {
                assert(session_listed_before(a[0], a[m]));
            }
        }
        assert(k == 0);
        assert(a.remove(0).to_multiset() == a.to_multiset().remove(a[0]));
        assert(b.remove(0).to_multiset() == b.to_multiset().remove(b[0]));
        assert(a.remove(0) =~= a.drop_first());
        assert(b.remove(0) =~= b.drop_first());
        assert(positions_increase(a.drop_first()));
        assert(positions_increase(b.drop_first()));
        lemma_position_order_unique(a.drop_first(), b.drop_first());
        assert forall|i: int| 0 <= i < a.len() implies a[i] == b[i] by {
            if i > 0 {
                assert(a[i] == a.drop_first()[i - 1]);
                assert(b[i] == b.drop_first()[i - 1]);
            }
        }
        assert(a =~= b);
    }
}

/// Two lists in strictly increasing listing order that hold the same
/// members are the same list.
pub proof fn lemma_position_order_same_members(a: Seq<BoardSession>, b: Seq<BoardSession>)
    requires
        positions_increase(a),
        positions_increase(b),
        forall|x: BoardSession| a.contains(x) <==> b.contains(x),
    ensures
        a == b,
    decreases a.len(),
{
    if a.len() == 0 {
        if b.len() > 0 {
            assert(b.contains(b[0]));
        }
        assert(a =~= b);
    } else if b.len() == 0 {
        assert(a.contains(a[0]));
    } else {
        assert(a.contains(a[0]));
        let k = choose|k: int| 0 <= k < b.len() && b[k] == a[0];
        assert(b.contains(b[0]));
        let m = choose|m: int| 0 <= m < a.len() && a[m] == b[0];
        if k > 0 {
            assert(session_listed_before(b[0], b[k]));
            if m > 0 {
                assert(session_listed_before(a[0], a[m]));
            }
        }
        assert(a[0] == b[0]);
        let a1 = a.drop_first();
        let b1 = b.drop_first();
        assert(positions_increase(a1));
        assert(positions_increase(b1));
        assert forall|x: BoardSession| a1.contains(x) <==> b1.contains(x) by {
            if a1.contains(x) {
                let i = choose|i: int| 0 <= i < a1.len() && a1[i] == x;
                assert(a[i + 1] == x && session_listed_before(a[0], a[i + 1]));
                assert(a.contains(x));
                let j = choose|j: int| 0 <= j < b.len() && b[j] == x;
                assert(j != 0);
                assert(b1[j - 1] == x);
            }
            if b1.contains(x) {
                let i = choose|i: int| 0 <= i < b1.len() && b1[i] == x;
                assert(b[i + 1] == x && session_listed_before(b[0], b[i + 1]));
                assert(b.contains(x));
                let j = choose|j: int| 0 <= j < a.len() && a[j] == x;
                assert(j != 0);
                assert(a1[j - 1] == x);
            }
        }
        lemma_position_order_same_members(a1, b1);
        assert forall|i: int| 0 <= i < a.len() implies a[i] == b[i] by {
            if i > 0 {
                assert(a[i] == a1[i - 1]);
                assert(b[i] == b1[i - 1]);
            }
        }
        assert(a =~= b);
    }
}

/// Whether board `a` is listed no later than board `b`: it was updated more
/// recently, or at the same time with a name that sorts no later.
pub open spec fn board_listed_before(a: Board, b: Board) -> bool {
    a.updated_at > b.updated_at || (a.updated_at == b.updated_at && text_le(a.name@, b.name@))
}

/// Of two boards, one is listed no later than the other.
pub proof fn lemma_board_listed_before_total(a: Board, b: Board)
    ensures
        board_listed_before(a, b) || board_listed_before(b, a),
{
    lemma_text_le_total(a.name@, b.name@);
}

/// Where board `x` goes in a list of boards: before the first board that it is
/// listed strictly before.
pub open spec fn board_insertion_point(l: Seq<Board>, x: Board) -> int
    decreases l.len(),
{
    if l.len() == 0 {
        0
    } else if !board_listed_before(l[0], x) {
        0
    } else {
        1 + board_insertion_point(l.drop_first(), x)
    }
}

/// A list of boards in listing order: each is put in its place in turn.
pub open spec fn sort_boards(l: Seq<Board>) -> Seq<Board>
    decreases l.len(),
{
    if l.len() == 0 {
        l
    } else {
        let rest = sort_boards(l.drop_last());
        rest.insert(board_insertion_point(rest, l.last()), l.last())
    }
}

/// Whether each board of a list is listed no later than the next.
pub open spec fn boards_in_listing_order(l: Seq<Board>) -> bool {
    forall|i: int| 0 <= i < l.len() - 1 ==> board_listed_before(#[trigger] l[i], l[i + 1])
}

/// The insertion point lies in the list, and every board before it is
/// listed no later than `x`.
pub proof fn lemma_board_insertion_point(l: Seq<Board>, x: Board)
    ensures
        0 <= board_insertion_point(l, x) <= l.len(),
        forall|k: int|
            0 <= k < board_insertion_point(l, x) ==> board_listed_before(#[trigger] l[k], x),
        board_insertion_point(l, x) < l.len() ==> !board_listed_before(
            l[board_insertion_point(l, x)],
            x,
        ),
    decreases l.len(),
{
    if l.len() > 0 && board_listed_before(l[0], x) {
        lemma_board_insertion_point(l.drop_first(), x);
        let p = board_insertion_point(l, x);
        assert forall|k: int| 0 <= k < p implies board_listed_before(#[trigger] l[k], x) by {
            if k > 0 {
                assert(l[k] == l.drop_first()[k - 1]);
            }
        }
        if p < l.len() {
            assert(l[p] == l.drop_first()[p - 1]);
        }
    }
}

/// Sorting boards keeps them and puts them in listing order.
pub proof fn lemma_sort_boards(l: Seq<Board>)
    ensures
        sort_boards(l).len() == l.len(),
        sort_boards(l).to_multiset() == l.to_multiset(),
        boards_in_listing_order(sort_boards(l)),
    decreases l.len(),
{
    if l.len() > 0 {
        let init = l.drop_last();
        let x = l.last();
        lemma_sort_boards(init);
        let rest = sort_boards(init);
        let p = board_insertion_point(rest, x);
        lemma_board_insertion_point(rest, x);
        assert(l =~= init.push(x));
        assert(rest.insert(p, x).to_multiset() == rest.to_multiset().insert(x));
        let r = rest.insert(p, x);
        assert forall|i: int| 0 <= i < r.len() - 1 implies board_listed_before(#[trigger] r[i], r[i + 1]) by {
            if i + 1 < p {
                assert(r[i] == rest[i] && r[i + 1] == rest[i + 1]);
            } else if i + 1 == p {
                assert(r[i] == rest[i]);
            } else if i == p {
                assert(r[i + 1] == rest[p]);
                lemma_board_listed_before_total(rest[p], x);
            } else {
                assert(r[i] == rest[i - 1] && r[i + 1] == rest[i]);
            }
        }
    }
}

} // verus!
