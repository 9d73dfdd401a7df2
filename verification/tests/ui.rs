use codex_boards::flow::{
    bind_board_action, bind_board_follow_up, move_blocked_message, recovery_title,
    removal_follow_up, resumed_thread, session_picker_step, thread_availability,
    unbinds_after_delete, BindAction, BindFollowUp, RemovalFollowUp, SessionPickerStep,
    ThreadAvailability,
};
use codex_boards::model::{Board, BoardOverview, BoardSession};
use codex_boards::status::{BoardSessionMoveDirection, BoardSessionStatus};
use codex_boards::text::{char_is_whitespace, is_blank, text_le_exec};
use codex_boards::thread_id::ThreadId;
use codex_boards::ui::{
    board_name_from_input, board_overview_description, board_picker_hint_line,
    board_picker_model, board_session_description, board_session_move_edge_label,
    board_session_picker_model, board_session_picker_selected_idx, board_session_status_label,
    board_session_title, board_sessions_hint_line, confirm_picker_hint_line,
    default_board_session_title, delete_board_prompt, recovered_board_session_title,
    remove_board_session_prompt, replacement_thread_id_after_removal, trim_text, HintKey,
    HintSpan, board_picker_key_action, board_session_picker_key_action, BoardUiAction,
};

fn tid(n: u128) -> ThreadId {
    ThreadId::from_u128(n)
}

fn session(t: u128, title: &str, status: BoardSessionStatus) -> BoardSession {
    BoardSession {
        board_id: "b".to_string(),
        thread_id: tid(t),
        title_snapshot: title.to_string(),
        sort_order: 0,
        status,
        last_seen_event_idx: None,
        last_event_idx: None,
        added_at: 0,
        removed_at: None,
    }
}

fn overview(id: &str, name: &str, n: usize, r: usize, a: usize) -> BoardOverview {
    BoardOverview {
        board: Board {
            id: id.to_string(),
            name: name.to_string(),
            created_at: 0,
            updated_at: 0,
            last_selected_thread_id: None,
        },
        session_count: n,
        running_count: r,
        needs_attention_count: a,
    }
}

#[test]
fn status_text_round_trips() {
    for s in [
        BoardSessionStatus::Unknown,
        BoardSessionStatus::Running,
        BoardSessionStatus::NeedsAttention,
        BoardSessionStatus::Seen,
        BoardSessionStatus::WaitingApproval,
        BoardSessionStatus::Errored,
    ] {
        assert_eq!(BoardSessionStatus::parse(s.as_str()), Ok(s));
    }
    assert_eq!(BoardSessionStatus::NeedsAttention.as_str(), "needs_attention");
    assert_eq!(BoardSessionStatus::WaitingApproval.as_str(), "waiting_approval");
    assert!(BoardSessionStatus::parse("Running").is_err());
    assert_eq!(BoardSessionStatus::parse("").unwrap_err().value, "");
}

#[test]
fn thread_ids_print_and_parse_as_uuids() {
    let t = tid(0xa1a2a3a4b1b2c1c2d1d2d3d4d5d6d7d8);
    assert_eq!(t.to_text(), "a1a2a3a4-b1b2-c1c2-d1d2-d3d4d5d6d7d8");
    assert_eq!(ThreadId::parse("a1a2a3a4-b1b2-c1c2-d1d2-d3d4d5d6d7d8"), Ok(t));
    assert_eq!(ThreadId::parse("A1A2A3A4B1B2C1C2D1D2D3D4D5D6D7D8"), Ok(t));
    assert!(ThreadId::parse("nope").is_err());
    let fresh = ThreadId::new();
    assert_eq!((fresh.uuid >> 76) & 0xf, 7);
    assert_eq!(ThreadId::parse(&fresh.to_text()), Ok(fresh));
}

#[test]
fn whitespace_and_blank_agree_with_std() {
    for code in 0u32..0x3100 {
        if let Some(c) = char::from_u32(code) {
            assert_eq!(char_is_whitespace(c), c.is_whitespace(), "{code:#x}");
        }
    }
    assert!(is_blank(""));
    assert!(is_blank(" \t\u{3000}"));
    assert!(!is_blank(" a "));
    for s in ["", "  ", " a b ", "\u{a0}x\n", "abc", "\t\tz"] {
        assert_eq!(trim_text(s), s.trim());
    }
}

#[test]
fn names_sort_in_byte_order() {
    let words = ["", "a", "ab", "B", "b", "\u{e9}", "z", "Z", "\u{1F600}", "aa"];
    for x in words {
        for y in words {
            assert_eq!(text_le_exec(x, y), x.as_bytes() <= y.as_bytes(), "{x:?} {y:?}");
        }
    }
}

#[test]
fn default_titles() {
    let t = tid(0x0123456789abcdef0123456789abcdef);
    assert_eq!(default_board_session_title(Some("Fix bug".to_string()), t), "Fix bug");
    assert_eq!(default_board_session_title(Some("  ".to_string()), t), "Untitled 01234567");
    assert_eq!(default_board_session_title(None, t), "Untitled 01234567");
    assert_eq!(board_session_title(&session(0x0123456789abcdef0123456789abcdef, " ", BoardSessionStatus::Seen)), "Untitled 01234567");
    assert_eq!(board_session_title(&session(1, "Named", BoardSessionStatus::Seen)), "Named");
}

#[test]
fn recovered_titles_follow_the_new_thread_only_when_untouched() {
    let old = tid(0xaaaaaaaa000000000000000000000000);
    let new = tid(0xbbbbbbbb000000000000000000000000);
    assert_eq!(recovered_board_session_title("Untitled aaaaaaaa", old, None, new), "Untitled bbbbbbbb");
    assert_eq!(recovered_board_session_title("", old, Some("Named".to_string()), new), "Named");
    assert_eq!(recovered_board_session_title("My work", old, Some("Named".to_string()), new), "My work");
}

#[test]
fn labels_and_descriptions() {
    assert_eq!(board_session_status_label(BoardSessionStatus::NeedsAttention), "needs attention");
    assert_eq!(board_session_status_label(BoardSessionStatus::WaitingApproval), "waiting approval");
    assert_eq!(board_session_description(&session(1, "x", BoardSessionStatus::Errored)), "errored");
    assert_eq!(
        board_overview_description(&overview("a", "A", 12, 3, 0)),
        "12 sessions \u{b7} 3 running \u{b7} 0 needs attention"
    );
    assert_eq!(board_session_move_edge_label(BoardSessionMoveDirection::Up), "top");
    assert_eq!(board_session_move_edge_label(BoardSessionMoveDirection::Down), "bottom");
    assert_eq!(move_blocked_message(BoardSessionMoveDirection::Down), "Session is already at the bottom of the board.");
}

#[test]
fn selected_index_prefers_the_preferred_thread() {
    let sessions = vec![
        session(1, "a", BoardSessionStatus::Seen),
        session(2, "b", BoardSessionStatus::Seen),
    ];
    assert_eq!(board_session_picker_selected_idx(&sessions, Some(tid(2)), Some(tid(1))), Some(1));
    assert_eq!(board_session_picker_selected_idx(&sessions, None, Some(tid(1))), Some(0));
    assert_eq!(board_session_picker_selected_idx(&sessions, Some(tid(9)), Some(tid(1))), None);
    assert_eq!(board_session_picker_selected_idx(&sessions, None, None), None);
}

#[test]
fn replacement_after_removal() {
    let sessions = vec![
        session(1, "a", BoardSessionStatus::Seen),
        session(2, "b", BoardSessionStatus::Seen),
    ];
    assert_eq!(replacement_thread_id_after_removal(Some(1), &sessions), Some(tid(2)));
    assert_eq!(replacement_thread_id_after_removal(Some(5), &sessions), Some(tid(2)));
    assert_eq!(replacement_thread_id_after_removal(None, &sessions), Some(tid(1)));
    assert_eq!(replacement_thread_id_after_removal(Some(0), &[]), None);
    assert_eq!(removal_follow_up(false, Some(0), &sessions), RemovalFollowUp::OpenPicker);
    assert_eq!(removal_follow_up(true, Some(0), &sessions), RemovalFollowUp::SwitchTo(tid(1)));
    assert_eq!(removal_follow_up(true, Some(0), &[]), RemovalFollowUp::CreateSession);
}

#[test]
fn binding_picks_the_selected_thread_if_still_there() {
    let sessions = vec![
        session(1, "a", BoardSessionStatus::Seen),
        session(2, "b", BoardSessionStatus::Seen),
    ];
    let mut board = overview("a", "A", 2, 0, 0).board;
    assert_eq!(bind_board_action(None, &sessions), BindAction::BoardMissing);
    assert_eq!(bind_board_action(Some(&board), &[]), BindAction::CreateSession);
    assert_eq!(bind_board_action(Some(&board), &sessions), BindAction::SwitchTo(tid(1)));
    board.last_selected_thread_id = Some(tid(2));
    assert_eq!(bind_board_action(Some(&board), &sessions), BindAction::SwitchTo(tid(2)));
    board.last_selected_thread_id = Some(tid(7));
    assert_eq!(bind_board_action(Some(&board), &sessions), BindAction::SwitchTo(tid(1)));
}

#[test]
fn recovery_and_deletion_decisions() {
    let old = tid(0xaaaaaaaa000000000000000000000000);
    let sessions = vec![BoardSession { thread_id: old, ..session(0, "Untitled aaaaaaaa", BoardSessionStatus::Unknown) }];
    let new = tid(0xcccccccc000000000000000000000000);
    assert_eq!(recovery_title(&sessions, old, None, new).as_deref(), Some("Untitled cccccccc"));
    assert_eq!(recovery_title(&sessions, new, None, old), None);
    assert!(unbinds_after_delete(Some("a"), "a", true));
    assert!(!unbinds_after_delete(Some("a"), "a", false));
    assert!(!unbinds_after_delete(Some("b"), "a", true));
    assert!(!unbinds_after_delete(None, "a", true));
    assert_eq!(thread_availability(true, false), ThreadAvailability::Ready);
    assert_eq!(thread_availability(false, false), ThreadAvailability::Recover);
    assert_eq!(thread_availability(false, true), ThreadAvailability::Resume);
}

#[test]
fn pickers_list_entries_in_order() {
    let boards = vec![overview("id-1", "One", 1, 1, 0), overview("id-2", "Two", 0, 0, 0)];
    let model = board_picker_model(&boards, Some("id-2"));
    assert_eq!(model.items.len(), 2);
    assert_eq!(model.items[0].name, "One");
    assert_eq!(model.items[0].search_value, "One id-1");
    assert!(!model.items[0].is_current);
    assert!(model.items[1].is_current);
    assert_eq!(model.initial_selected_idx, Some(1));
    assert_eq!(board_picker_model(&boards, None).initial_selected_idx, None);

    let sessions = vec![
        session(0xa1a2a3a4b1b2c1c2d1d2d3d4d5d6d7d8, "Main", BoardSessionStatus::Running),
        session(2, "", BoardSessionStatus::Seen),
    ];
    let model = board_session_picker_model("b", &sessions, None, Some(tid(2)));
    assert_eq!(model.items[0].search_value, "Main a1a2a3a4-b1b2-c1c2-d1d2-d3d4d5d6d7d8");
    assert_eq!(model.items[0].description, "running");
    assert_eq!(model.items[1].name, "Untitled 00000000");
    assert!(model.items[1].is_current);
    assert_eq!(model.initial_selected_idx, Some(1));
}

#[test]
fn hint_lines_and_prompts() {
    let line = board_picker_hint_line();
    assert_eq!(line.len(), 12);
    assert_eq!(line[0], HintSpan::Key(HintKey::Enter));
    assert_eq!(line[11], HintSpan::Text { text: "  esc close".to_string(), dim: true });
    let line = board_sessions_hint_line();
    assert_eq!(line.len(), 17);
    assert_eq!(line[12], HintSpan::Key(HintKey::ShiftUp));
    assert_eq!(
        confirm_picker_hint_line("delete", "cancel"),
        vec![HintSpan::Text { text: "enter delete  esc cancel".to_string(), dim: true }]
    );
    let p = delete_board_prompt("id-1".to_string(), "Work".to_string());
    assert_eq!(p.title, "Delete board?");
    assert_eq!(p.subtitle, "Work");
    assert_eq!(p.confirm_action, BoardUiAction::DeleteBoard { board_id: "id-1".to_string() });
    let p = remove_board_session_prompt("id-1".to_string(), tid(4), "Chat".to_string());
    assert_eq!(p.confirm_name, "Remove from board");
    assert_eq!(p.cancel_name, "Cancel");
    assert_eq!(
        p.confirm_action,
        BoardUiAction::RemoveBoardSession { board_id: "id-1".to_string(), thread_id: tid(4) }
    );
    assert_eq!(board_name_from_input("  New board \n"), Some("New board".to_string()));
    assert_eq!(board_name_from_input(" \t "), None);
}

#[test]
fn pickers_carry_view_ids_and_enter_actions() {
    let boards = vec![overview("id-1", "One", 1, 1, 0), overview("id-2", "Two", 0, 0, 0)];
    let model = board_picker_model(&boards, None);
    assert_eq!(model.view_id, "kb-board-picker");
    assert_eq!(model.title, "Boards");
    assert_eq!(
        model.items[1].action,
        BoardUiAction::BindBoard { board_id: "id-2".to_string(), open_sessions_after: true }
    );
    let sessions = vec![session(7, "Main", BoardSessionStatus::Running)];
    let model = board_session_picker_model("b", &sessions, None, None);
    assert_eq!(model.view_id, "kb-board-session-picker");
    assert_eq!(model.subtitle, "Switch sessions in the current board");
    assert_eq!(
        model.items[0].action,
        BoardUiAction::SwitchBoardSession { board_id: "b".to_string(), thread_id: tid(7) }
    );
    assert_eq!(model.initial_selected_idx, None);
}

#[test]
fn board_picker_keys_act_on_the_selected_board() {
    let boards = vec![overview("id-1", "One", 1, 1, 0), overview("id-2", "Two", 0, 0, 0)];
    assert_eq!(board_picker_key_action(&boards, None, HintKey::Char('n')), Some(BoardUiAction::OpenCreateBoardPrompt));
    assert_eq!(board_picker_key_action(&boards, None, HintKey::Char('r')), None);
    assert_eq!(board_picker_key_action(&boards, Some(5), HintKey::Char('d')), None);
    assert_eq!(
        board_picker_key_action(&boards, Some(1), HintKey::Char('r')),
        Some(BoardUiAction::OpenRenameBoardPrompt { board_id: "id-2".to_string(), current_name: "Two".to_string() })
    );
    assert_eq!(
        board_picker_key_action(&boards, Some(0), HintKey::Char('d')),
        Some(BoardUiAction::OpenDeleteBoardPrompt { board_id: "id-1".to_string(), board_name: "One".to_string() })
    );
    assert_eq!(
        board_picker_key_action(&boards, Some(0), HintKey::Enter),
        Some(BoardUiAction::BindBoard { board_id: "id-1".to_string(), open_sessions_after: true })
    );
    assert_eq!(board_picker_key_action(&boards, Some(0), HintKey::ShiftUp), None);
    assert_eq!(board_picker_key_action(&boards, Some(0), HintKey::Char('x')), None);
}

#[test]
fn session_picker_keys_act_on_the_selected_session() {
    let sessions = vec![session(1, "Main", BoardSessionStatus::Running), session(2, "", BoardSessionStatus::Seen)];
    assert_eq!(
        board_session_picker_key_action("b", &sessions, None, HintKey::Char('n')),
        Some(BoardUiAction::CreateBoundBoardSession)
    );
    assert_eq!(board_session_picker_key_action("b", &sessions, None, HintKey::Enter), None);
    assert_eq!(
        board_session_picker_key_action("b", &sessions, Some(0), HintKey::Enter),
        Some(BoardUiAction::SwitchBoardSession { board_id: "b".to_string(), thread_id: tid(1) })
    );
    assert_eq!(
        board_session_picker_key_action("b", &sessions, Some(1), HintKey::Char('r')),
        Some(BoardUiAction::OpenRenameBoardSessionPrompt {
            board_id: "b".to_string(),
            thread_id: tid(2),
            current_name: "Untitled 00000000".to_string(),
        })
    );
    assert_eq!(
        board_session_picker_key_action("b", &sessions, Some(0), HintKey::Char('d')),
        Some(BoardUiAction::OpenRemoveBoardSessionPrompt {
            board_id: "b".to_string(),
            thread_id: tid(1),
            title: "Main".to_string(),
        })
    );
    assert_eq!(
        board_session_picker_key_action("b", &sessions, Some(1), HintKey::ShiftUp),
        Some(BoardUiAction::MoveBoardSession {
            board_id: "b".to_string(),
            thread_id: tid(2),
            direction: BoardSessionMoveDirection::Up,
        })
    );
    assert_eq!(
        board_session_picker_key_action("b", &sessions, Some(0), HintKey::ShiftDown),
        Some(BoardUiAction::MoveBoardSession {
            board_id: "b".to_string(),
            thread_id: tid(1),
            direction: BoardSessionMoveDirection::Down,
        })
    );
    assert_eq!(board_session_picker_key_action("b", &sessions, Some(2), HintKey::Enter), None);
}

#[test]
fn binding_follow_ups() {
    let none = BindFollowUp { bound: false, create_session: false, open_session_picker: false };
    assert_eq!(bind_board_follow_up(BindAction::BoardMissing, true, true), none);
    assert_eq!(
        bind_board_follow_up(BindAction::CreateSession, true, false),
        BindFollowUp { bound: true, create_session: true, open_session_picker: false }
    );
    assert_eq!(
        bind_board_follow_up(BindAction::SwitchTo(tid(1)), false, true),
        BindFollowUp { bound: true, create_session: true, open_session_picker: true }
    );
    assert_eq!(
        bind_board_follow_up(BindAction::SwitchTo(tid(1)), true, true),
        BindFollowUp { bound: true, create_session: false, open_session_picker: true }
    );
}

#[test]
fn resumes_and_picker_steps() {
    assert_eq!(resumed_thread(tid(1), tid(1)), Ok(tid(1)));
    assert_eq!(
        resumed_thread(tid(1), tid(2)),
        Err("Resumed board session id mismatch: expected 00000000-0000-0000-0000-000000000001, got 00000000-0000-0000-0000-000000000002.".to_string())
    );
    let sessions = vec![session(1, "Main", BoardSessionStatus::Running)];
    assert_eq!(session_picker_step(&sessions, false), SessionPickerStep::Show);
    assert_eq!(session_picker_step(&sessions, true), SessionPickerStep::Show);
    assert_eq!(session_picker_step(&[], false), SessionPickerStep::CreateSessionFirst);
    assert_eq!(session_picker_step(&[], true), SessionPickerStep::Nothing);
}

#[test]
fn overview_counts_are_written_in_decimal() {
    assert_eq!(
        board_overview_description(&overview("id", "N", 1234567890, 0, 10)),
        "1234567890 sessions \u{b7} 0 running \u{b7} 10 needs attention"
    );
}
