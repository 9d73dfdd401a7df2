//! The status a session has on a board, and the direction of a reorder.

use vstd::prelude::*;
use crate::text::text_eq;

verus! {

/// Where a board session stands, as tracked per board.
#[derive(Debug, Clone, Copy, PartialEq, Eq, Structural)]
pub enum BoardSessionStatus {
    Unknown,
    Running,
    NeedsAttention,
    Seen,
    WaitingApproval,
    Errored,
}

/// Which neighbour a session swaps places with when it is moved.
#[derive(Debug, Clone, Copy, PartialEq, Eq, Structural)]
pub enum BoardSessionMoveDirection {
    Up,
    Down,
}

/// The stored text of a status.
pub open spec fn status_text(status: BoardSessionStatus) -> Seq<char> {
    match status {
        BoardSessionStatus::Unknown => "unknown"@,
        BoardSessionStatus::Running => "running"@,
        BoardSessionStatus::NeedsAttention => "needs_attention"@,
        BoardSessionStatus::Seen => "seen"@,
        BoardSessionStatus::WaitingApproval => "waiting_approval"@,
        BoardSessionStatus::Errored => "errored"@,
    }
}

/// The status whose stored text is `text`, if there is one.
pub open spec fn status_from_text(text: Seq<char>) -> Option<BoardSessionStatus> {
    if text == "unknown"@ {
        Some(BoardSessionStatus::Unknown)
    } else if text == "running"@ {
        Some(BoardSessionStatus::Running)
    } else if text == "needs_attention"@ {
        Some(BoardSessionStatus::NeedsAttention)
    } else if text == "seen"@ {
        Some(BoardSessionStatus::Seen)
    } else if text == "waiting_approval"@ {
        Some(BoardSessionStatus::WaitingApproval)
    } else if text == "errored"@ {
        Some(BoardSessionStatus::Errored)
    } else {
        None
    }
}

/// Text that names no status.
#[derive(Debug, Clone, PartialEq, Eq)]
pub struct InvalidBoardSessionStatus {
    pub value: String,
}

impl BoardSessionStatus {
    /// The text under which the status is stored.
    pub fn as_str(self) -> (r: &'static str)
        ensures
            r@ == status_text(self),
    {
        match self {
            Self::Unknown => "unknown",
            Self::Running => "running",
            Self::NeedsAttention => "needs_attention",
            Self::Seen => "seen",
            Self::WaitingApproval => "waiting_approval",
            Self::Errored => "errored",
        }
    }

    /// Reads a status back from its stored text.
    pub fn parse(value: &str) -> (r: Result<BoardSessionStatus, InvalidBoardSessionStatus>)
        ensures
            match r {
                Ok(s) => status_from_text(value@) == Some(s),
                Err(e) => status_from_text(value@) is None && e.value@ == value@,
            },
    {
        if text_eq(value, "unknown") {
            Ok(Self::Unknown)
        } else if text_eq(value, "running") {
            Ok(Self::Running)
        } else if text_eq(value, "needs_attention") {
            Ok(Self::NeedsAttention)
        } else if text_eq(value, "seen") {
            Ok(Self::Seen)
        } else if text_eq(value, "waiting_approval") {
            Ok(Self::WaitingApproval)
        } else if text_eq(value, "errored") {
            Ok(Self::Errored)
        } else {
            Err(InvalidBoardSessionStatus { value: value.to_owned() })
        }
    }
}

/// Reading back the stored text of a status gives that status, and the text
/// that reads as a status is exactly the stored text of that status.
pub proof fn lemma_status_text_round_trip(status: BoardSessionStatus, text: Seq<char>)
    ensures
        status_from_text(status_text(status)) == Some(status),
        status_from_text(text) == Some(status) ==> text == status_text(status),
{
    reveal_strlit("unknown");
    reveal_strlit("running");
    reveal_strlit("needs_attention");
    reveal_strlit("seen");
    reveal_strlit("waiting_approval");
    reveal_strlit("errored");
    // The six texts start with six different characters.
    assert("unknown"@[0] == 'u');
    assert("running"@[0] == 'r');
    assert("needs_attention"@[0] == 'n');
    assert("seen"@[0] == 's');
    assert("waiting_approval"@[0] == 'w');
    assert("errored"@[0] == 'e');
}

/// Each status is stored under its own text, fixed once for all, and reads
/// back from it: `unknown`, `running`, `needs_attention`, `seen`,
/// `waiting_approval` and `errored`.
pub proof fn law_stored_status_texts()
    ensures
        status_text(BoardSessionStatus::Unknown) == "unknown"@,
        status_text(BoardSessionStatus::Running) == "running"@,
        status_text(BoardSessionStatus::NeedsAttention) == "needs_attention"@,
        status_text(BoardSessionStatus::Seen) == "seen"@,
        status_text(BoardSessionStatus::WaitingApproval) == "waiting_approval"@,
        status_text(BoardSessionStatus::Errored) == "errored"@,
        status_from_text("unknown"@) == Some(BoardSessionStatus::Unknown),
        status_from_text("running"@) == Some(BoardSessionStatus::Running),
        status_from_text("needs_attention"@) == Some(BoardSessionStatus::NeedsAttention),
        status_from_text("seen"@) == Some(BoardSessionStatus::Seen),
        status_from_text("waiting_approval"@) == Some(BoardSessionStatus::WaitingApproval),
        status_from_text("errored"@) == Some(BoardSessionStatus::Errored),
{
    lemma_status_text_round_trip(BoardSessionStatus::Unknown, "unknown"@);
    lemma_status_text_round_trip(BoardSessionStatus::Running, "running"@);
    lemma_status_text_round_trip(BoardSessionStatus::NeedsAttention, "needs_attention"@);
    lemma_status_text_round_trip(BoardSessionStatus::Seen, "seen"@);
    lemma_status_text_round_trip(BoardSessionStatus::WaitingApproval, "waiting_approval"@);
    lemma_status_text_round_trip(BoardSessionStatus::Errored, "errored"@);
}

} // verus!
