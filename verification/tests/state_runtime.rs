use codex_boards::model::{Board, BoardError, BoardRow, BoardSession, BoardSessionRow, BoardOverviewRow, BoardOverview};
use codex_boards::status::{BoardSessionMoveDirection, BoardSessionStatus};
use codex_boards::store::StateRuntime;
use codex_boards::thread_id::ThreadId;

#[test]
fn boards_round_trip_and_persist_sessions() {
    let mut runtime = StateRuntime::new();

    let board = runtime.create_board("feat: payments").unwrap();
    assert_eq!(board.name, "feat: payments");

    let thread_id = ThreadId::new();
    runtime
        .add_board_session(board.id.as_str(), thread_id, "Main implementation")
        .unwrap();
    runtime.set_board_last_selected_thread(board.id.as_str(), Some(thread_id));

    let boards = runtime.list_boards();
    assert_eq!(boards.len(), 1);
    assert_eq!(boards[0].board.id, board.id);
    assert_eq!(boards[0].session_count, 1);
    assert_eq!(boards[0].running_count, 0);
    assert_eq!(boards[0].needs_attention_count, 0);

    let sessions = runtime.list_board_sessions(board.id.as_str());
    assert_eq!(sessions.len(), 1);
    assert_eq!(sessions[0].thread_id, thread_id);
    assert_eq!(sessions[0].title_snapshot, "Main implementation");
    assert_eq!(sessions[0].status, BoardSessionStatus::Unknown);
}

#[test]
fn removing_board_session_hides_it_from_active_list() {
    let mut runtime = StateRuntime::new();

    let board = runtime.create_board("feat: auth").unwrap();
    let thread_id = ThreadId::new();
    runtime
        .add_board_session(board.id.as_str(), thread_id, "Debug login")
        .unwrap();
    assert_eq!(runtime.list_board_sessions(board.id.as_str()).len(), 1);

    let removed = runtime.remove_board_session(board.id.as_str(), thread_id);
    assert_eq!(removed, true);
    assert_eq!(runtime.list_board_sessions(board.id.as_str()).len(), 0);
}

#[test]
fn thread_activity_updates_all_board_rows_but_seen_is_board_specific() {
    let mut runtime = StateRuntime::new();

    let board_a = runtime.create_board("feat: a").unwrap();
    let board_b = runtime.create_board("feat: b").unwrap();
    let thread_id = ThreadId::new();
    runtime
        .add_board_session(board_a.id.as_str(), thread_id, "Shared thread")
        .unwrap();
    runtime
        .add_board_session(board_b.id.as_str(), thread_id, "Shared thread")
        .unwrap();

    runtime.set_thread_board_sessions_status(thread_id, BoardSessionStatus::Running);
    runtime
        .record_thread_board_sessions_activity(thread_id, BoardSessionStatus::NeedsAttention)
        .unwrap();
    runtime.mark_board_session_seen(board_a.id.as_str(), thread_id);

    let board_a_sessions = runtime.list_board_sessions(board_a.id.as_str());
    let board_b_sessions = runtime.list_board_sessions(board_b.id.as_str());
    assert_eq!(board_a_sessions[0].status, BoardSessionStatus::Seen);
    assert_eq!(board_a_sessions[0].last_event_idx, Some(0));
    assert_eq!(board_a_sessions[0].last_seen_event_idx, Some(0));
    assert_eq!(board_b_sessions[0].status, BoardSessionStatus::NeedsAttention);
    assert_eq!(board_b_sessions[0].last_event_idx, Some(0));
    assert_eq!(board_b_sessions[0].last_seen_event_idx, None);
}

#[test]
fn moving_board_session_reorders_board_list() {
    let mut runtime = StateRuntime::new();

    let board = runtime.create_board("feat: reorder").unwrap();
    let thread_a = ThreadId::new();
    let thread_b = ThreadId::new();
    let thread_c = ThreadId::new();
    runtime.add_board_session(board.id.as_str(), thread_a, "A").unwrap();
    runtime.add_board_session(board.id.as_str(), thread_b, "B").unwrap();
    runtime.add_board_session(board.id.as_str(), thread_c, "C").unwrap();

    assert_eq!(
        runtime
            .move_board_session(board.id.as_str(), thread_c, BoardSessionMoveDirection::Up)
            .unwrap(),
        true
    );
    assert_eq!(
        runtime
            .move_board_session(board.id.as_str(), thread_c, BoardSessionMoveDirection::Up)
            .unwrap(),
        true
    );

    let sessions = runtime.list_board_sessions(board.id.as_str());
    assert_eq!(
        sessions
            .into_iter()
            .map(|session| session.thread_id)
            .collect::<Vec<_>>(),
        vec![thread_c, thread_a, thread_b]
    );
}

#[test]
fn replacing_board_session_thread_id_preserves_slot_and_updates_selection() {
    let mut runtime = StateRuntime::new();

    let board = runtime.create_board("feat: heal").unwrap();
    let old_thread_id = ThreadId::new();
    let newer_thread_id = ThreadId::new();
    runtime
        .add_board_session(board.id.as_str(), old_thread_id, "Untitled")
        .unwrap();
    runtime.set_board_last_selected_thread(board.id.as_str(), Some(old_thread_id));

    let replaced = runtime
        .replace_board_session_thread_id(
            board.id.as_str(),
            old_thread_id,
            newer_thread_id,
            "Recovered session",
        )
        .unwrap();
    assert_eq!(replaced, true);

    let board = runtime
        .get_board(board.id.as_str())
        .expect("board should still exist");
    assert_eq!(board.last_selected_thread_id, Some(newer_thread_id));

    let sessions = runtime.list_board_sessions(board.id.as_str());
    assert_eq!(sessions.len(), 1);
    assert_eq!(sessions[0].thread_id, newer_thread_id);
    assert_eq!(sessions[0].title_snapshot, "Recovered session");
    assert_eq!(sessions[0].status, BoardSessionStatus::Unknown);
    assert_eq!(sessions[0].sort_order, 0);
}

fn tid(n: u128) -> ThreadId {
    ThreadId::from_u128(n)
}

#[test]
fn create_board_with_taken_id_fails_and_changes_nothing() {
    let mut runtime = StateRuntime::new();
    let b = runtime.create_board_with_id("b1".to_string(), "One", 10).unwrap();
    assert_eq!(b.created_at, 10);
    assert_eq!(b.updated_at, 10);
    assert_eq!(b.last_selected_thread_id, None);
    let err = runtime.create_board_with_id("b1".to_string(), "Two", 11).unwrap_err();
    assert_eq!(err, BoardError::DuplicateBoard("b1".to_string()));
    assert_eq!(runtime.boards().len(), 1);
    assert_eq!(runtime.get_board("b1").unwrap().name, "One");
}

#[test]
fn created_board_ids_are_hyphenated_uuids() {
    let mut runtime = StateRuntime::new();
    let b = runtime.create_board("x").unwrap();
    assert_eq!(b.id.len(), 36);
    let bytes = b.id.as_bytes();
    for (i, c) in bytes.iter().enumerate() {
        if i == 8 || i == 13 || i == 18 || i == 23 {
            assert_eq!(*c, b'-');
        } else {
            assert!(c.is_ascii_hexdigit() && !c.is_ascii_uppercase());
        }
    }
    assert!(b.created_at > 1_600_000_000);
}

#[test]
fn rename_and_select_stamp_the_board() {
    let mut runtime = StateRuntime::new();
    runtime.create_board_with_id("b".to_string(), "Old", 1).unwrap();
    assert!(runtime.rename_board_at("b", "New", 5));
    let b = runtime.get_board("b").unwrap();
    assert_eq!(b.name, "New");
    assert_eq!(b.updated_at, 5);
    assert_eq!(b.created_at, 1);
    assert!(!runtime.rename_board_at("missing", "New", 6));
    assert!(runtime.set_board_last_selected_thread_at("b", Some(tid(3)), 7));
    let b = runtime.get_board("b").unwrap();
    assert_eq!(b.last_selected_thread_id, Some(tid(3)));
    assert_eq!(b.updated_at, 7);
    assert!(runtime.set_board_last_selected_thread_at("b", None, 8));
    assert_eq!(runtime.get_board("b").unwrap().last_selected_thread_id, None);
}

#[test]
fn deleting_a_board_removes_its_sessions() {
    let mut runtime = StateRuntime::new();
    runtime.create_board_with_id("a".to_string(), "A", 1).unwrap();
    runtime.create_board_with_id("b".to_string(), "B", 1).unwrap();
    runtime.add_board_session_at("a", tid(1), "one", 2).unwrap();
    runtime.add_board_session_at("b", tid(1), "one", 2).unwrap();
    runtime.add_board_session_at("a", tid(2), "two", 2).unwrap();
    runtime.remove_board_session_at("a", tid(2), 3);
    assert!(runtime.delete_board("a"));
    assert!(runtime.get_board("a").is_none());
    assert_eq!(runtime.boards().len(), 1);
    assert_eq!(runtime.sessions().len(), 1);
    assert_eq!(runtime.sessions()[0].board_id, "b");
    assert!(!runtime.delete_board("a"));
}

#[test]
fn adding_to_a_missing_board_fails() {
    let mut runtime = StateRuntime::new();
    let err = runtime.add_board_session_at("nope", tid(1), "t", 1).unwrap_err();
    assert_eq!(err, BoardError::BoardNotFound("nope".to_string()));
    assert!(runtime.sessions().is_empty());
}

#[test]
fn adding_selects_the_thread_and_places_it_last() {
    let mut runtime = StateRuntime::new();
    runtime.create_board_with_id("a".to_string(), "A", 1).unwrap();
    runtime.add_board_session_at("a", tid(1), "one", 2).unwrap();
    runtime.add_board_session_at("a", tid(2), "two", 3).unwrap();
    let b = runtime.get_board("a").unwrap();
    assert_eq!(b.last_selected_thread_id, Some(tid(2)));
    assert_eq!(b.updated_at, 3);
    // Adding a thread that is already on the board moves it to the end.
    runtime.add_board_session_at("a", tid(1), "again", 4).unwrap();
    let list = runtime.list_board_sessions("a");
    assert_eq!(list.iter().map(|s| s.thread_id).collect::<Vec<_>>(), vec![tid(2), tid(1)]);
    assert_eq!(list[1].title_snapshot, "again");
    assert_eq!(list[1].sort_order, 2);
    assert_eq!(list[1].added_at, 4);
}

#[test]
fn readding_a_removed_session_keeps_its_event_indices() {
    let mut runtime = StateRuntime::new();
    runtime.create_board_with_id("a".to_string(), "A", 1).unwrap();
    runtime.add_board_session_at("a", tid(1), "one", 2).unwrap();
    runtime.record_thread_board_sessions_activity_at(tid(1), BoardSessionStatus::NeedsAttention, 3).unwrap();
    assert!(runtime.remove_board_session_at("a", tid(1), 4));
    assert!(runtime.list_board_sessions("a").is_empty());
    assert_eq!(runtime.sessions()[0].removed_at, Some(4));
    runtime.add_board_session_at("a", tid(1), "back", 5).unwrap();
    let list = runtime.list_board_sessions("a");
    assert_eq!(list.len(), 1);
    assert_eq!(list[0].status, BoardSessionStatus::Unknown);
    assert_eq!(list[0].last_event_idx, Some(0));
    assert_eq!(list[0].removed_at, None);
    assert_eq!(list[0].sort_order, 0);
}

#[test]
fn replacing_into_a_thread_the_board_has_fails() {
    let mut runtime = StateRuntime::new();
    runtime.create_board_with_id("a".to_string(), "A", 1).unwrap();
    runtime.add_board_session_at("a", tid(1), "one", 2).unwrap();
    runtime.add_board_session_at("a", tid(2), "two", 2).unwrap();
    let err = runtime
        .replace_board_session_thread_id_at("a", tid(1), tid(2), "x", 3)
        .unwrap_err();
    assert_eq!(err, BoardError::SessionConflict("a".to_string(), tid(2)));
    assert_eq!(
        runtime.replace_board_session_thread_id_at("a", tid(9), tid(8), "x", 3),
        Ok(false)
    );
    // Selection does not follow when another thread was selected.
    assert_eq!(
        runtime.replace_board_session_thread_id_at("a", tid(1), tid(3), "three", 4),
        Ok(true)
    );
    assert_eq!(runtime.get_board("a").unwrap().last_selected_thread_id, Some(tid(2)));
}

#[test]
fn titles_and_statuses_by_board_and_by_thread() {
    let mut runtime = StateRuntime::new();
    runtime.create_board_with_id("a".to_string(), "A", 1).unwrap();
    runtime.create_board_with_id("b".to_string(), "B", 1).unwrap();
    runtime.add_board_session_at("a", tid(1), "one", 2).unwrap();
    runtime.add_board_session_at("b", tid(1), "one", 2).unwrap();
    assert!(runtime.update_board_session_title_snapshot("a", tid(1), "only a"));
    assert!(!runtime.update_board_session_title_snapshot("a", tid(5), "none"));
    assert_eq!(runtime.list_board_sessions("a")[0].title_snapshot, "only a");
    assert_eq!(runtime.list_board_sessions("b")[0].title_snapshot, "one");
    assert_eq!(runtime.update_thread_board_session_title_snapshot_at(tid(1), "both", 9), 2);
    assert_eq!(runtime.list_board_sessions("b")[0].title_snapshot, "both");
    assert_eq!(runtime.get_board("b").unwrap().updated_at, 9);
    assert!(runtime.set_board_session_status_at("b", tid(1), BoardSessionStatus::Errored, 10));
    assert_eq!(runtime.list_board_sessions("b")[0].status, BoardSessionStatus::Errored);
    assert_eq!(runtime.list_board_sessions("a")[0].status, BoardSessionStatus::Unknown);
    assert_eq!(runtime.set_thread_board_sessions_status_at(tid(7), BoardSessionStatus::Running, 11), 0);
}

#[test]
fn seen_keeps_running_waiting_and_errored() {
    let mut runtime = StateRuntime::new();
    runtime.create_board_with_id("a".to_string(), "A", 1).unwrap();
    runtime.add_board_session_at("a", tid(1), "one", 2).unwrap();
    runtime.set_board_session_status_at("a", tid(1), BoardSessionStatus::WaitingApproval, 3);
    assert!(runtime.mark_board_session_seen_at("a", tid(1), 4));
    let s = &runtime.list_board_sessions("a")[0];
    assert_eq!(s.status, BoardSessionStatus::WaitingApproval);
    assert_eq!(s.last_seen_event_idx, None);
    assert!(!runtime.mark_board_session_seen_at("a", tid(2), 4));
}

#[test]
fn activity_index_overflow_is_refused() {
    let boards = vec![Board {
        id: "a".to_string(),
        name: "A".to_string(),
        created_at: 0,
        updated_at: 0,
        last_selected_thread_id: None,
    }];
    let sessions = vec![BoardSession {
        board_id: "a".to_string(),
        thread_id: tid(1),
        title_snapshot: "t".to_string(),
        sort_order: 0,
        status: BoardSessionStatus::Running,
        last_seen_event_idx: None,
        last_event_idx: Some(i64::MAX),
        added_at: 0,
        removed_at: None,
    }];
    let mut runtime = StateRuntime::from_parts(boards, sessions).unwrap();
    assert_eq!(
        runtime.record_thread_board_sessions_activity_at(tid(1), BoardSessionStatus::Seen, 1),
        Err(BoardError::EventIndexOverflow)
    );
    assert_eq!(runtime.sessions()[0].status, BoardSessionStatus::Running);
}

#[test]
fn sort_order_overflow_is_refused() {
    let boards = vec![Board {
        id: "a".to_string(),
        name: "A".to_string(),
        created_at: 0,
        updated_at: 0,
        last_selected_thread_id: None,
    }];
    let sessions = vec![BoardSession {
        board_id: "a".to_string(),
        thread_id: tid(1),
        title_snapshot: "t".to_string(),
        sort_order: i64::MAX,
        status: BoardSessionStatus::Running,
        last_seen_event_idx: None,
        last_event_idx: None,
        added_at: 0,
        removed_at: None,
    }];
    let mut runtime = StateRuntime::from_parts(boards, sessions).unwrap();
    assert_eq!(
        runtime.add_board_session_at("a", tid(2), "t", 1),
        Err(BoardError::SortOrderOverflow)
    );
    assert_eq!(runtime.sessions().len(), 1);
}

#[test]
fn moves_at_the_edges_do_nothing() {
    let mut runtime = StateRuntime::new();
    runtime.create_board_with_id("a".to_string(), "A", 1).unwrap();
    runtime.add_board_session_at("a", tid(1), "one", 2).unwrap();
    runtime.add_board_session_at("a", tid(2), "two", 2).unwrap();
    assert_eq!(runtime.move_board_session_at("a", tid(1), BoardSessionMoveDirection::Up, 3), Ok(false));
    assert_eq!(runtime.move_board_session_at("a", tid(2), BoardSessionMoveDirection::Down, 3), Ok(false));
    assert_eq!(runtime.move_board_session_at("a", tid(9), BoardSessionMoveDirection::Down, 3), Ok(false));
    assert_eq!(runtime.get_board("a").unwrap().updated_at, 2);
    assert_eq!(runtime.move_board_session_at("a", tid(1), BoardSessionMoveDirection::Down, 4), Ok(true));
    let list = runtime.list_board_sessions("a");
    assert_eq!(list.iter().map(|s| (s.thread_id, s.sort_order)).collect::<Vec<_>>(), vec![(tid(2), 0), (tid(1), 1)]);
    assert_eq!(runtime.get_board("a").unwrap().updated_at, 4);
    // Up then down gives back the order.
    runtime.move_board_session_at("a", tid(1), BoardSessionMoveDirection::Up, 5).unwrap();
    runtime.move_board_session_at("a", tid(1), BoardSessionMoveDirection::Down, 6).unwrap();
    let list = runtime.list_board_sessions("a");
    assert_eq!(list.iter().map(|s| s.thread_id).collect::<Vec<_>>(), vec![tid(2), tid(1)]);
}

#[test]
fn boards_are_listed_most_recent_first_then_by_name() {
    let mut runtime = StateRuntime::new();
    runtime.create_board_with_id("1".to_string(), "beta", 5).unwrap();
    runtime.create_board_with_id("2".to_string(), "alpha", 5).unwrap();
    runtime.create_board_with_id("3".to_string(), "zeta", 9).unwrap();
    runtime.create_board_with_id("4".to_string(), "Beta", 5).unwrap();
    runtime.add_board_session_at("2", tid(1), "t", 5).unwrap();
    runtime.set_board_session_status_at("2", tid(1), BoardSessionStatus::Running, 5);
    runtime.add_board_session_at("2", tid(2), "t", 5).unwrap();
    runtime.set_board_session_status_at("2", tid(2), BoardSessionStatus::NeedsAttention, 5);
    runtime.add_board_session_at("2", tid(3), "t", 5).unwrap();
    runtime.remove_board_session_at("2", tid(3), 5);
    let list = runtime.list_boards();
    assert_eq!(
        list.iter().map(|o| o.board.name.as_str()).collect::<Vec<_>>(),
        vec!["zeta", "Beta", "alpha", "beta"]
    );
    assert_eq!(list[2].session_count, 2);
    assert_eq!(list[2].running_count, 1);
    assert_eq!(list[2].needs_attention_count, 1);
}

#[test]
fn from_parts_checks_consistency() {
    let board = |id: &str| Board {
        id: id.to_string(),
        name: "n".to_string(),
        created_at: 0,
        updated_at: 0,
        last_selected_thread_id: None,
    };
    let session = |board_id: &str, t: u128, sort: i64| BoardSession {
        board_id: board_id.to_string(),
        thread_id: tid(t),
        title_snapshot: String::new(),
        sort_order: sort,
        status: BoardSessionStatus::Unknown,
        last_seen_event_idx: None,
        last_event_idx: None,
        added_at: 0,
        removed_at: None,
    };
    assert!(StateRuntime::from_parts(vec![board("a"), board("b")], vec![session("a", 1, 0), session("b", 1, 0)]).is_some());
    assert!(StateRuntime::from_parts(vec![board("a"), board("a")], vec![]).is_none());
    assert!(StateRuntime::from_parts(vec![board("a")], vec![session("b", 1, 0)]).is_none());
    assert!(StateRuntime::from_parts(vec![board("a")], vec![session("a", 1, 0), session("a", 1, 1)]).is_none());
    assert!(StateRuntime::from_parts(vec![board("a")], vec![session("a", 1, 0), session("a", 2, 0)]).is_some());
}

#[test]
fn sessions_sharing_a_position_are_listed_by_when_they_were_added() {
    let board = Board {
        id: "a".to_string(),
        name: "n".to_string(),
        created_at: 0,
        updated_at: 0,
        last_selected_thread_id: None,
    };
    let session = |t: u128, sort: i64, added_at: i64| BoardSession {
        board_id: "a".to_string(),
        thread_id: tid(t),
        title_snapshot: String::new(),
        sort_order: sort,
        status: BoardSessionStatus::Unknown,
        last_seen_event_idx: None,
        last_event_idx: None,
        added_at,
        removed_at: None,
    };
    let mut runtime = StateRuntime::from_parts(
        vec![board],
        vec![session(1, 1, 30), session(2, 0, 50), session(3, 1, 20)],
    )
    .unwrap();
    let order: Vec<ThreadId> = runtime.list_board_sessions("a").iter().map(|s| s.thread_id).collect();
    assert_eq!(order, vec![tid(2), tid(3), tid(1)]);
    // Moving renumbers the listing 0, 1, 2, ... as it stands after the swap.
    assert_eq!(runtime.move_board_session_at("a", tid(1), BoardSessionMoveDirection::Up, 60), Ok(true));
    let listed = runtime.list_board_sessions("a");
    let order: Vec<ThreadId> = listed.iter().map(|s| s.thread_id).collect();
    assert_eq!(order, vec![tid(2), tid(1), tid(3)]);
    let positions: Vec<i64> = listed.iter().map(|s| s.sort_order).collect();
    assert_eq!(positions, vec![0, 1, 2]);
}

#[test]
fn stored_rows_convert_or_report_what_is_wrong() {
    let t = ThreadId::new();
    let row = BoardSessionRow {
        board_id: "a".to_string(),
        thread_id: t.to_text(),
        title_snapshot: "x".to_string(),
        sort_order: 3,
        status: "needs_attention".to_string(),
        last_seen_event_idx: Some(1),
        last_event_idx: Some(2),
        added_at: 1_700_000_000,
        removed_at: None,
    };
    let s = BoardSession::try_from_row(row).unwrap();
    assert_eq!(s.thread_id, t);
    assert_eq!(s.status, BoardSessionStatus::NeedsAttention);
    let bad_status = BoardSessionRow {
        board_id: "a".to_string(),
        thread_id: t.to_text(),
        title_snapshot: "x".to_string(),
        sort_order: 3,
        status: "busy".to_string(),
        last_seen_event_idx: None,
        last_event_idx: None,
        added_at: 0,
        removed_at: None,
    };
    assert_eq!(BoardSession::try_from_row(bad_status).unwrap_err(), BoardError::InvalidStatus("busy".to_string()));
    let bad_thread = BoardSessionRow {
        board_id: "a".to_string(),
        thread_id: "not a uuid".to_string(),
        title_snapshot: "x".to_string(),
        sort_order: 3,
        status: "seen".to_string(),
        last_seen_event_idx: None,
        last_event_idx: None,
        added_at: 0,
        removed_at: None,
    };
    assert_eq!(BoardSession::try_from_row(bad_thread).unwrap_err(), BoardError::InvalidThreadId("not a uuid".to_string()));
    let far = BoardRow {
        id: "a".to_string(),
        name: "A".to_string(),
        created_at: i64::MAX,
        updated_at: 0,
        last_selected_thread_id: None,
    };
    assert_eq!(Board::try_from_row(far).unwrap_err(), BoardError::TimestampOutOfRange(i64::MAX));
    let ok = BoardRow {
        id: "a".to_string(),
        name: "A".to_string(),
        created_at: 0,
        updated_at: 1,
        last_selected_thread_id: Some(t.to_text()),
    };
    let b = Board::try_from_row(ok).unwrap();
    assert_eq!(b.last_selected_thread_id, Some(t));
    let overview = BoardOverviewRow {
        board: BoardRow {
            id: "a".to_string(),
            name: "A".to_string(),
            created_at: 0,
            updated_at: 1,
            last_selected_thread_id: None,
        },
        session_count: 2,
        running_count: -1,
        needs_attention_count: 0,
    };
    assert_eq!(BoardOverview::try_from_row(overview).unwrap_err(), BoardError::CountOutOfRange(-1));
}

#[test]
fn handover_keeps_the_listing_place() {
    let mut runtime = StateRuntime::new();
    runtime.create_board_with_id("a".to_string(), "A", 1).unwrap();
    runtime.add_board_session_at("a", tid(1), "one", 2).unwrap();
    runtime.add_board_session_at("a", tid(2), "two", 2).unwrap();
    runtime.add_board_session_at("a", tid(3), "three", 2).unwrap();
    runtime.record_thread_board_sessions_activity_at(tid(2), BoardSessionStatus::NeedsAttention, 3).unwrap();
    assert_eq!(runtime.replace_board_session_thread_id_at("a", tid(2), tid(9), "nine", 4), Ok(true));
    let list = runtime.list_board_sessions("a");
    assert_eq!(list.iter().map(|s| s.thread_id).collect::<Vec<_>>(), vec![tid(1), tid(9), tid(3)]);
    assert_eq!(list[1].title_snapshot, "nine");
    assert_eq!(list[1].last_event_idx, None);
    assert_eq!(list[1].status, BoardSessionStatus::Unknown);
    assert_eq!(runtime.get_board("a").unwrap().updated_at, 4);
}

#[test]
fn a_fresh_store_creates_the_board() {
    let mut runtime = StateRuntime::new();
    let board = runtime.create_board("feat: payments");
    assert!(board.is_ok());
    assert_eq!(board.unwrap().name, "feat: payments");
}

#[test]
fn saved_rows_load_back_as_the_same_store() {
    let mut runtime = StateRuntime::new();
    runtime.create_board_with_id("b1".to_string(), "One", 10).unwrap();
    runtime.create_board_with_id("b2".to_string(), "Two", 11).unwrap();
    runtime.add_board_session_at("b1", tid(1), "First", 12).unwrap();
    runtime.add_board_session_at("b1", tid(2), "Second", 13).unwrap();
    runtime.add_board_session_at("b2", tid(1), "Shared", 14).unwrap();
    runtime.set_board_session_status_at("b1", tid(2), BoardSessionStatus::NeedsAttention, 15);
    runtime.remove_board_session_at("b2", tid(1), 16);
    runtime.move_board_session_at("b1", tid(2), BoardSessionMoveDirection::Up, 17).unwrap();
    runtime.set_board_last_selected_thread_at("b1", Some(tid(2)), 18);

    let (board_rows, session_rows) = runtime.to_rows();
    assert_eq!(board_rows[0].last_selected_thread_id.as_deref(), Some("00000000-0000-0000-0000-000000000002"));
    assert_eq!(session_rows[1].status, "needs_attention");
    let reloaded = StateRuntime::from_rows(board_rows, session_rows).unwrap().unwrap();
    assert_eq!(reloaded.boards(), runtime.boards());
    assert_eq!(reloaded.sessions(), runtime.sessions());
    assert_eq!(reloaded.list_board_sessions("b1"), runtime.list_board_sessions("b1"));
    assert_eq!(reloaded.list_boards(), runtime.list_boards());
}

fn plain_board_row(id: &str, created_at: i64) -> BoardRow {
    BoardRow {
        id: id.to_string(),
        name: "N".to_string(),
        created_at,
        updated_at: 0,
        last_selected_thread_id: None,
    }
}

#[test]
fn stored_times_must_lie_in_the_date_range() {
    assert!(Board::try_from_row(plain_board_row("a", -8_334_601_228_800)).is_ok());
    assert!(Board::try_from_row(plain_board_row("a", 8_210_266_876_799)).is_ok());
    assert_eq!(
        Board::try_from_row(plain_board_row("a", -8_334_601_228_801)).unwrap_err(),
        BoardError::TimestampOutOfRange(-8_334_601_228_801)
    );
    assert_eq!(
        Board::try_from_row(plain_board_row("a", 8_210_266_876_800)).unwrap_err(),
        BoardError::TimestampOutOfRange(8_210_266_876_800)
    );
}

#[test]
fn loading_rows_reports_the_first_bad_row() {
    let rows = vec![plain_board_row("a", 0), plain_board_row("b", i64::MAX), plain_board_row("c", i64::MIN)];
    let err = StateRuntime::from_rows(rows, Vec::new()).err().unwrap();
    assert_eq!(err, BoardError::TimestampOutOfRange(i64::MAX));
    let dup = vec![plain_board_row("a", 0), plain_board_row("a", 1)];
    assert!(StateRuntime::from_rows(dup, Vec::new()).unwrap().is_none());
}

#[test]
fn deleting_a_board_empties_its_listing_and_keeps_the_others() {
    let mut runtime = StateRuntime::new();
    runtime.create_board_with_id("b1".to_string(), "One", 10).unwrap();
    runtime.create_board_with_id("b2".to_string(), "Two", 11).unwrap();
    runtime.add_board_session_at("b1", tid(1), "A", 12).unwrap();
    runtime.add_board_session_at("b2", tid(2), "B", 13).unwrap();
    let before = runtime.list_board_sessions("b2");
    assert!(runtime.delete_board("b1"));
    assert!(runtime.list_board_sessions("b1").is_empty());
    assert!(runtime.list_boards().iter().all(|o| o.board.id != "b1"));
    assert_eq!(runtime.list_board_sessions("b2"), before);
}

#[test]
fn removal_keeps_the_rest_in_order_and_adding_appends() {
    let mut runtime = StateRuntime::new();
    runtime.create_board_with_id("b".to_string(), "B", 10).unwrap();
    for t in 1..=4u128 {
        runtime.add_board_session_at("b", tid(t), "s", 10).unwrap();
    }
    let before = runtime.list_board_sessions("b");
    assert!(runtime.remove_board_session_at("b", tid(2), 11));
    let mut expected = before.clone();
    expected.remove(1);
    assert_eq!(runtime.list_board_sessions("b"), expected);
    runtime.add_board_session_at("b", tid(9), "new", 12).unwrap();
    let after = runtime.list_board_sessions("b");
    assert_eq!(&after[..3], &expected[..]);
    assert_eq!(after[3].thread_id, tid(9));
}

#[test]
fn overviews_agree_with_board_and_session_lookups() {
    let mut runtime = StateRuntime::new();
    runtime.create_board_with_id("b1".to_string(), "One", 10).unwrap();
    runtime.create_board_with_id("b2".to_string(), "Two", 10).unwrap();
    runtime.add_board_session_at("b1", tid(1), "A", 12).unwrap();
    runtime.add_board_session_at("b1", tid(2), "B", 12).unwrap();
    runtime.set_board_session_status_at("b1", tid(1), BoardSessionStatus::Running, 13);
    for o in runtime.list_boards() {
        assert_eq!(Some(o.board.clone()), runtime.get_board(&o.board.id));
        let sessions = runtime.list_board_sessions(&o.board.id);
        assert_eq!(o.session_count, sessions.len());
        assert_eq!(o.running_count, sessions.iter().filter(|s| s.status == BoardSessionStatus::Running).count());
        assert_eq!(
            o.needs_attention_count,
            sessions.iter().filter(|s| s.status == BoardSessionStatus::NeedsAttention).count()
        );
    }
}

#[test]
fn retitling_and_status_change_only_that_entry() {
    let mut runtime = StateRuntime::new();
    runtime.create_board_with_id("b1".to_string(), "One", 10).unwrap();
    runtime.create_board_with_id("b2".to_string(), "Two", 10).unwrap();
    for t in 1..=3u128 {
        runtime.add_board_session_at("b1", tid(t), "s", 11).unwrap();
    }
    runtime.add_board_session_at("b2", tid(2), "other", 11).unwrap();
    let before = runtime.list_board_sessions("b1");
    let other_before = runtime.list_board_sessions("b2");
    let board_before = runtime.get_board("b1");
    assert!(runtime.update_board_session_title_snapshot("b1", tid(2), "Renamed"));
    let after = runtime.list_board_sessions("b1");
    assert_eq!(after[1].title_snapshot, "Renamed");
    assert_eq!(after[0], before[0]);
    assert_eq!(after[2], before[2]);
    assert_eq!(after[1].sort_order, before[1].sort_order);
    assert_eq!(runtime.get_board("b1"), board_before);
    assert!(runtime.set_board_session_status_at("b1", tid(2), BoardSessionStatus::Errored, 12));
    let after = runtime.list_board_sessions("b1");
    assert_eq!(after[1].status, BoardSessionStatus::Errored);
    assert_eq!(after[1].title_snapshot, "Renamed");
    assert_eq!(runtime.list_board_sessions("b2"), other_before);
    assert!(!runtime.set_board_session_status_at("b1", tid(9), BoardSessionStatus::Errored, 13));
}

#[test]
fn readding_a_listed_session_moves_it_last() {
    let mut runtime = StateRuntime::new();
    runtime.create_board_with_id("b".to_string(), "B", 10).unwrap();
    for t in 1..=3u128 {
        runtime.add_board_session_at("b", tid(t), "s", 11).unwrap();
    }
    runtime.set_board_session_status_at("b", tid(1), BoardSessionStatus::Running, 12);
    runtime.add_board_session_at("b", tid(1), "again", 13).unwrap();
    let listed = runtime.list_board_sessions("b");
    let order: Vec<ThreadId> = listed.iter().map(|s| s.thread_id).collect();
    assert_eq!(order, vec![tid(2), tid(3), tid(1)]);
    assert_eq!(listed[2].title_snapshot, "again");
    assert_eq!(listed[2].status, BoardSessionStatus::Unknown);
    assert_eq!(listed[2].sort_order, 3);
    assert_eq!(runtime.get_board("b").unwrap().last_selected_thread_id, Some(tid(1)));
}
