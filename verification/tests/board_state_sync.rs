use codex_boards::flow::{board_sync_plan_for_notification, board_sync_plan_for_thread_event};
use codex_boards::status::BoardSessionStatus;
use codex_boards::sync::{
    board_status_update_for_event_msg, board_status_update_for_notification,
    board_status_update_for_outbound_op, board_status_update_for_request,
    should_mark_thread_seen_after_event, should_mark_thread_seen_after_notification,
    BoardStatusUpdate, OutboundOp, ServerNotification, ServerRequest, ThreadEvent, TurnStatus,
};
use codex_boards::thread_id::ThreadId;

#[test]
fn completion_events_record_attention() {
    assert_eq!(
        board_status_update_for_event_msg(&ThreadEvent::TurnComplete),
        Some(BoardStatusUpdate::RecordActivity(BoardSessionStatus::NeedsAttention))
    );
    assert_eq!(
        board_status_update_for_event_msg(&ThreadEvent::TurnAborted),
        Some(BoardStatusUpdate::RecordActivity(BoardSessionStatus::NeedsAttention))
    );
}

#[test]
fn approval_related_events_and_ops_round_trip_waiting_and_running() {
    assert_eq!(
        board_status_update_for_event_msg(&ThreadEvent::RequestUserInput),
        Some(BoardStatusUpdate::SetStatus(BoardSessionStatus::WaitingApproval))
    );
    assert_eq!(
        board_status_update_for_outbound_op(&OutboundOp::UserInputAnswer),
        Some(BoardSessionStatus::Running)
    );
    assert_eq!(
        board_status_update_for_outbound_op(&OutboundOp::ExecApproval),
        Some(BoardSessionStatus::Running)
    );
    assert_eq!(
        board_status_update_for_outbound_op(&OutboundOp::UserTurn),
        Some(BoardSessionStatus::Running)
    );
}

#[test]
fn board_state_sync_completion_only_marks_seen_for_current_thread() {
    let current_thread_id = ThreadId::new();
    let background_thread_id = ThreadId::new();
    let completed = ThreadEvent::TurnComplete;

    assert!(should_mark_thread_seen_after_event(
        Some(current_thread_id),
        current_thread_id,
        &completed,
    ));
    assert!(!should_mark_thread_seen_after_event(
        Some(current_thread_id),
        background_thread_id,
        &completed,
    ));

    let completed = ServerNotification::TurnCompleted { status: TurnStatus::Completed };
    assert!(should_mark_thread_seen_after_notification(
        Some(current_thread_id),
        current_thread_id,
        &completed,
    ));
    assert!(!should_mark_thread_seen_after_notification(
        Some(current_thread_id),
        background_thread_id,
        &completed,
    ));
}

#[test]
fn failed_turn_maps_to_errored() {
    assert_eq!(
        board_status_update_for_notification(&ServerNotification::TurnCompleted {
            status: TurnStatus::Failed,
        }),
        Some(BoardStatusUpdate::SetStatus(BoardSessionStatus::Errored))
    );
}

#[test]
fn approval_requests_and_responses_round_trip_waiting_and_running() {
    assert_eq!(
        board_status_update_for_request(&ServerRequest::PermissionsRequestApproval),
        Some(BoardSessionStatus::WaitingApproval)
    );
    assert_eq!(
        board_status_update_for_outbound_op(&OutboundOp::RequestPermissionsResponse),
        Some(BoardSessionStatus::Running)
    );
    assert_eq!(
        board_status_update_for_outbound_op(&OutboundOp::UserTurn),
        Some(BoardSessionStatus::Running)
    );
}

#[test]
fn retryable_errors_do_not_flip_status() {
    assert_eq!(
        board_status_update_for_notification(&ServerNotification::Error { will_retry: true }),
        None
    );
}

#[test]
fn every_event_kind_maps_as_documented() {
    let set = |s| Some(BoardStatusUpdate::SetStatus(s));
    assert_eq!(board_status_update_for_event_msg(&ThreadEvent::TurnStarted), set(BoardSessionStatus::Running));
    assert_eq!(board_status_update_for_event_msg(&ThreadEvent::ExecApprovalRequest), set(BoardSessionStatus::WaitingApproval));
    assert_eq!(board_status_update_for_event_msg(&ThreadEvent::ApplyPatchApprovalRequest), set(BoardSessionStatus::WaitingApproval));
    assert_eq!(board_status_update_for_event_msg(&ThreadEvent::ElicitationRequest), set(BoardSessionStatus::WaitingApproval));
    assert_eq!(board_status_update_for_event_msg(&ThreadEvent::RequestPermissions), set(BoardSessionStatus::WaitingApproval));
    assert_eq!(board_status_update_for_event_msg(&ThreadEvent::Error), set(BoardSessionStatus::Errored));
    assert_eq!(board_status_update_for_event_msg(&ThreadEvent::StreamError), set(BoardSessionStatus::Errored));
    assert_eq!(board_status_update_for_event_msg(&ThreadEvent::Other), None);
    assert_eq!(
        board_status_update_for_event_msg(&ThreadEvent::ThreadNameUpdated { thread_name: None }),
        None
    );
    assert_eq!(board_status_update_for_outbound_op(&OutboundOp::Other), None);
    assert_eq!(board_status_update_for_outbound_op(&OutboundOp::PatchApproval), Some(BoardSessionStatus::Running));
    assert_eq!(board_status_update_for_outbound_op(&OutboundOp::ResolveElicitation), Some(BoardSessionStatus::Running));
    assert_eq!(board_status_update_for_request(&ServerRequest::Other), None);
    assert_eq!(board_status_update_for_request(&ServerRequest::CommandExecutionRequestApproval), Some(BoardSessionStatus::WaitingApproval));
    assert_eq!(board_status_update_for_request(&ServerRequest::FileChangeRequestApproval), Some(BoardSessionStatus::WaitingApproval));
    assert_eq!(board_status_update_for_request(&ServerRequest::McpServerElicitationRequest), Some(BoardSessionStatus::WaitingApproval));
    assert_eq!(board_status_update_for_notification(&ServerNotification::TurnStarted), set(BoardSessionStatus::Running));
    assert_eq!(board_status_update_for_notification(&ServerNotification::Error { will_retry: false }), set(BoardSessionStatus::Errored));
    assert_eq!(
        board_status_update_for_notification(&ServerNotification::TurnCompleted { status: TurnStatus::Interrupted }),
        Some(BoardStatusUpdate::RecordActivity(BoardSessionStatus::NeedsAttention))
    );
    assert_eq!(
        board_status_update_for_notification(&ServerNotification::TurnCompleted { status: TurnStatus::InProgress }),
        None
    );
    assert!(!should_mark_thread_seen_after_event(None, ThreadId::from_u128(1), &ThreadEvent::TurnAborted));
    assert!(should_mark_thread_seen_after_event(
        Some(ThreadId::from_u128(1)),
        ThreadId::from_u128(1),
        &ThreadEvent::TurnAborted
    ));
    assert!(!should_mark_thread_seen_after_event(
        Some(ThreadId::from_u128(1)),
        ThreadId::from_u128(1),
        &ThreadEvent::TurnStarted
    ));
}

#[test]
fn sync_plans_rename_update_and_mark_seen() {
    let t = ThreadId::from_u128(0x0123456789abcdef0123456789abcdef);
    let plan = board_sync_plan_for_thread_event(
        Some(t),
        t,
        &ThreadEvent::ThreadNameUpdated { thread_name: Some("Fix login".to_string()) },
        Some("board-1"),
    );
    assert_eq!(plan.title_snapshot.as_deref(), Some("Fix login"));
    assert_eq!(plan.status_update, None);
    assert_eq!(plan.mark_seen_board_id, None);
    let plan = board_sync_plan_for_thread_event(
        Some(t),
        t,
        &ThreadEvent::ThreadNameUpdated { thread_name: Some("   ".to_string()) },
        None,
    );
    assert_eq!(plan.title_snapshot.as_deref(), Some("Untitled 01234567"));
    let plan = board_sync_plan_for_thread_event(Some(t), t, &ThreadEvent::TurnComplete, Some("board-1"));
    assert_eq!(
        plan.status_update,
        Some(BoardStatusUpdate::RecordActivity(BoardSessionStatus::NeedsAttention))
    );
    assert_eq!(plan.mark_seen_board_id.as_deref(), Some("board-1"));
    let plan = board_sync_plan_for_thread_event(Some(t), t, &ThreadEvent::TurnComplete, None);
    assert_eq!(plan.mark_seen_board_id, None);
    let plan = board_sync_plan_for_notification(
        Some(t),
        t,
        &ServerNotification::TurnCompleted { status: TurnStatus::Failed },
        Some("b"),
    );
    assert_eq!(plan.status_update, Some(BoardStatusUpdate::SetStatus(BoardSessionStatus::Errored)));
    assert_eq!(plan.mark_seen_board_id.as_deref(), Some("b"));
    assert_eq!(plan.title_snapshot, None);
}
