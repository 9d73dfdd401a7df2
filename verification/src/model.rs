//! Boards, board sessions and board overviews as plain values, the stored
//! rows they are read from, and the clock that stamps them.

use vstd::prelude::*;
use crate::status::{BoardSessionStatus, status_from_text, status_text};
use crate::thread_id::uuid_text;
use crate::thread_id::{ThreadId, uuid_parsed};

verus! {

/// Whether `chrono::DateTime::<Utc>::from_timestamp(secs, 0)` gives a time:
/// the seconds lie between the start of January 1, 262143 BCE (chrono's
/// `NaiveDate::MIN`, year -262143) and the end of December 31, 262142 CE
/// (`NaiveDate::MAX`), both inclusive.
pub open spec fn timestamp_representable(secs: i64) -> bool {
    -8_334_601_228_800 <= secs <= 8_210_266_876_799
}

/// Calls `chrono::Utc::now` and reads it as seconds since the Unix epoch with `timestamp`.
/// Claimed: the seconds read back as a time (chrono documents that
/// `from_timestamp` round-trips with `timestamp`); nothing about which time it is.
/// `Utc::now` panics when the system clock reads before 1970, a fault of the
/// machine that no argument can rule out.
#[verifier::external_body]
pub(crate) fn now_epoch_seconds() -> (r: i64)
    ensures
        timestamp_representable(r),
{
    chrono::Utc::now().timestamp()
}

/// Calls `chrono::DateTime::<Utc>::from_timestamp(secs, 0)` and tells whether it gave a time.
/// Claimed: it gives one exactly for the seconds in chrono's date range.
#[verifier::external_body]
fn epoch_seconds_representable(secs: i64) -> (r: bool)
    ensures
        r == timestamp_representable(secs),
{
    chrono::DateTime::<chrono::Utc>::from_timestamp(secs, 0).is_some()
}

/// Why a board operation or a conversion of a stored row failed.
#[derive(Debug, Clone, PartialEq, Eq)]
pub enum BoardError {
    /// A stored thread identifier is not the text of a UUID.
    InvalidThreadId(String),
    /// A stored status is not the text of a status.
    InvalidStatus(String),
    /// A stored time lies outside the range of dates that can be represented.
    TimestampOutOfRange(i64),
    /// A stored count is negative or too large for `usize`.
    CountOutOfRange(i64),
    /// A board with this identifier exists already.
    DuplicateBoard(String),
    /// No board has this identifier.
    BoardNotFound(String),
    /// The board already holds a row for the thread that a session was to take.
    SessionConflict(String, ThreadId),
    /// The next position at the end of the board does not fit in an `i64`.
    SortOrderOverflow,
    /// The index of a session's next event does not fit in an `i64`.
    EventIndexOverflow,
}

/// A board: a named group of sessions.
#[derive(Debug, PartialEq, Eq)]
pub struct Board {
    pub id: String,
    pub name: String,
    /// Seconds since the Unix epoch.
    pub created_at: i64,
    /// Seconds since the Unix epoch.
    pub updated_at: i64,
    pub last_selected_thread_id: Option<ThreadId>,
}

impl Clone for Board {
    fn clone(&self) -> (r: Self)
        ensures
            r == *self,
    {
        Board {
            id: self.id.clone(),
            name: self.name.clone(),
            created_at: self.created_at,
            updated_at: self.updated_at,
            last_selected_thread_id: self.last_selected_thread_id,
        }
    }
}

/// A board with the number of its sessions, and of those running or needing attention.
#[derive(Debug, PartialEq, Eq)]
pub struct BoardOverview {
    pub board: Board,
    pub session_count: usize,
    pub running_count: usize,
    pub needs_attention_count: usize,
}

impl Clone for BoardOverview {
    fn clone(&self) -> (r: Self)
        ensures
            r == *self,
    {
        BoardOverview {
            board: self.board.clone(),
            session_count: self.session_count,
            running_count: self.running_count,
            needs_attention_count: self.needs_attention_count,
        }
    }
}

/// The membership of a thread in a board, with its place, title and status there.
#[derive(Debug, PartialEq, Eq)]
pub struct BoardSession {
    pub board_id: String,
    pub thread_id: ThreadId,
    pub title_snapshot: String,
    pub sort_order: i64,
    pub status: BoardSessionStatus,
    pub last_seen_event_idx: Option<i64>,
    pub last_event_idx: Option<i64>,
    /// Seconds since the Unix epoch.
    pub added_at: i64,
    /// Seconds since the Unix epoch; `Some` once the session left the board.
    pub removed_at: Option<i64>,
}

impl Clone for BoardSession {
    fn clone(&self) -> (r: Self)
        ensures
            r == *self,
    {
        BoardSession {
            board_id: self.board_id.clone(),
            thread_id: self.thread_id,
            title_snapshot: self.title_snapshot.clone(),
            sort_order: self.sort_order,
            status: self.status,
            last_seen_event_idx: self.last_seen_event_idx,
            last_event_idx: self.last_event_idx,
            added_at: self.added_at,
            removed_at: self.removed_at,
        }
    }
}

/// A board as stored: times as seconds, the selected thread as text.
#[derive(Debug)]
pub struct BoardRow {
    pub id: String,
    pub name: String,
    pub created_at: i64,
    pub updated_at: i64,
    pub last_selected_thread_id: Option<String>,
}

/// A board overview as stored: counts as signed integers.
#[derive(Debug)]
pub struct BoardOverviewRow {
    pub board: BoardRow,
    pub session_count: i64,
    pub running_count: i64,
    pub needs_attention_count: i64,
}

/// A board session as stored: thread and status as text.
#[derive(Debug)]
pub struct BoardSessionRow {
    pub board_id: String,
    pub thread_id: String,
    pub title_snapshot: String,
    pub sort_order: i64,
    pub status: String,
    pub last_seen_event_idx: Option<i64>,
    pub last_event_idx: Option<i64>,
    pub added_at: i64,
    pub removed_at: Option<i64>,
}

/// Whether `text` is the stored form of `thread`: its hyphenated text, which
/// reads back as the thread.
pub open spec fn thread_text_of(text: Seq<char>, thread: ThreadId) -> bool {
    text == uuid_text(thread.uuid) && uuid_parsed(text) == Some(thread.uuid)
}

/// Whether `row` is how the board `b` is stored.
pub open spec fn board_row_of(row: BoardRow, b: Board) -> bool {
    &&& row.id == b.id
    &&& row.name == b.name
    &&& row.created_at == b.created_at
    &&& row.updated_at == b.updated_at
    &&& match b.last_selected_thread_id {
        Some(t) => row.last_selected_thread_id matches Some(text) && thread_text_of(text@, t),
        None => row.last_selected_thread_id is None,
    }
}

/// Whether `row` is how the session `s` is stored.
pub open spec fn session_row_of(row: BoardSessionRow, s: BoardSession) -> bool {
    &&& row.board_id == s.board_id
    &&& thread_text_of(row.thread_id@, s.thread_id)
    &&& row.title_snapshot == s.title_snapshot
    &&& row.sort_order == s.sort_order
    &&& row.status@ == status_text(s.status)
    &&& row.last_seen_event_idx == s.last_seen_event_idx
    &&& row.last_event_idx == s.last_event_idx
    &&& row.added_at == s.added_at
    &&& row.removed_at == s.removed_at
}

/// Whether every time of a board can be represented.
pub open spec fn board_times_representable(b: Board) -> bool {
    timestamp_representable(b.created_at) && timestamp_representable(b.updated_at)
}

/// Whether every time of a session can be represented.
pub open spec fn session_times_representable(s: BoardSession) -> bool {
    timestamp_representable(s.added_at) && (s.removed_at is Some ==> timestamp_representable(
        s.removed_at->0,
    ))
}

/// The thread that a stored optional thread text names, once it is known to parse.
pub open spec fn parsed_thread(text: Option<String>) -> Option<ThreadId> {
    match text {
        Some(t) => Some(ThreadId { uuid: uuid_parsed(t@)->0 }),
        None => None,
    }
}

/// The error that converting a stored board gives, if any: the first of
/// its times that cannot be represented, then a selected thread that does not parse.
pub open spec fn board_row_error(row: BoardRow) -> Option<BoardError> {
    if !timestamp_representable(row.created_at) {
        Some(BoardError::TimestampOutOfRange(row.created_at))
    } else if !timestamp_representable(row.updated_at) {
        Some(BoardError::TimestampOutOfRange(row.updated_at))
    } else if row.last_selected_thread_id is Some && uuid_parsed(
        row.last_selected_thread_id->0@,
    ) is None {
        Some(BoardError::InvalidThreadId(row.last_selected_thread_id->0))
    } else {
        None
    }
}

/// The board that a stored board converts to when it has no error.
pub open spec fn board_of_row(row: BoardRow) -> Board {
    Board {
        id: row.id,
        name: row.name,
        created_at: row.created_at,
        updated_at: row.updated_at,
        last_selected_thread_id: parsed_thread(row.last_selected_thread_id),
    }
}

/// Whether a stored count fits in a `usize` (it is not negative).
pub open spec fn count_fits(c: i64) -> bool {
    0 <= c <= usize::MAX
}

/// The error that converting a stored overview gives, if any.
pub open spec fn overview_row_error(row: BoardOverviewRow) -> Option<BoardError> {
    if board_row_error(row.board) is Some {
        board_row_error(row.board)
    } else if !count_fits(row.session_count) {
        Some(BoardError::CountOutOfRange(row.session_count))
    } else if !count_fits(row.running_count) {
        Some(BoardError::CountOutOfRange(row.running_count))
    } else if !count_fits(row.needs_attention_count) {
        Some(BoardError::CountOutOfRange(row.needs_attention_count))
    } else {
        None
    }
}

/// The error that converting a stored session gives, if any.
pub open spec fn session_row_error(row: BoardSessionRow) -> Option<BoardError> {
    if uuid_parsed(row.thread_id@) is None {
        Some(BoardError::InvalidThreadId(row.thread_id))
    } else if status_from_text(row.status@) is None {
        Some(BoardError::InvalidStatus(row.status))
    } else if !timestamp_representable(row.added_at) {
        Some(BoardError::TimestampOutOfRange(row.added_at))
    } else if row.removed_at is Some && !timestamp_representable(row.removed_at->0) {
        Some(BoardError::TimestampOutOfRange(row.removed_at->0))
    } else {
        None
    }
}

/// The session that a stored session converts to when it has no error.
pub open spec fn session_of_row(row: BoardSessionRow) -> BoardSession {
    BoardSession {
        board_id: row.board_id,
        thread_id: ThreadId { uuid: uuid_parsed(row.thread_id@)->0 },
        title_snapshot: row.title_snapshot,
        sort_order: row.sort_order,
        status: status_from_text(row.status@)->0,
        last_seen_event_idx: row.last_seen_event_idx,
        last_event_idx: row.last_event_idx,
        added_at: row.added_at,
        removed_at: row.removed_at,
    }
}

fn check_time(secs: i64) -> (r: Result<(), BoardError>)
    ensures
        r is Ok <==> timestamp_representable(secs),
        r matches Err(e) ==> e == BoardError::TimestampOutOfRange(secs),
{
    if epoch_seconds_representable(secs) {
        Ok(())
    } else {
        Err(BoardError::TimestampOutOfRange(secs))
    }
}

fn count_to_usize(c: i64) -> (r: Result<usize, BoardError>)
    ensures
        r is Ok <==> count_fits(c),
        r matches Ok(n) ==> n == c,
        r matches Err(e) ==> e == BoardError::CountOutOfRange(c),
{
    if c < 0 || c as u64 > usize::MAX as u64 {
        Err(BoardError::CountOutOfRange(c))
    } else {
        Ok(c as usize)
    }
}

impl Board {
    /// Converts a stored board: its times must be representable and its
    /// selected thread, if any, must parse.
    pub fn try_from_row(row: BoardRow) -> (r: Result<Board, BoardError>)
        ensures
            match r {
                Ok(b) => board_row_error(row) is None && b == board_of_row(row),
                Err(e) => board_row_error(row) == Some(e),
            },
    {
        check_time(row.created_at)?;
        check_time(row.updated_at)?;
        let last_selected_thread_id = match row.last_selected_thread_id {
            Some(text) => match ThreadId::parse(text.as_str()) {
                Ok(t) => Some(t),
                Err(_) => {
                    return Err(BoardError::InvalidThreadId(text));
                },
            },
            None => None,
        };
        Ok(
            Board {
                id: row.id,
                name: row.name,
                created_at: row.created_at,
                updated_at: row.updated_at,
                last_selected_thread_id,
            },
        )
    }
}

impl Board {
    /// The row the board is stored as.
    pub fn to_row(&self) -> (r: BoardRow)
        ensures
            board_row_of(r, *self),
    {
        BoardRow {
            id: self.id.clone(),
            name: self.name.clone(),
            created_at: self.created_at,
            updated_at: self.updated_at,
            last_selected_thread_id: match self.last_selected_thread_id {
                Some(t) => Some(t.to_text()),
                None => None,
            },
        }
    }
}

impl BoardSession {
    /// The row the session is stored as.
    pub fn to_row(&self) -> (r: BoardSessionRow)
        ensures
            session_row_of(r, *self),
    {
        BoardSessionRow {
            board_id: self.board_id.clone(),
            thread_id: self.thread_id.to_text(),
            title_snapshot: self.title_snapshot.clone(),
            sort_order: self.sort_order,
            status: self.status.as_str().to_owned(),
            last_seen_event_idx: self.last_seen_event_idx,
            last_event_idx: self.last_event_idx,
            added_at: self.added_at,
            removed_at: self.removed_at,
        }
    }
}

impl BoardOverview {
    /// Converts a stored overview: its board as `Board::try_from_row` does,
    /// then its counts, which must not be negative.
    pub fn try_from_row(row: BoardOverviewRow) -> (r: Result<BoardOverview, BoardError>)
        ensures
            match r {
                Ok(o) => {
                    &&& overview_row_error(row) is None
                    &&& o.board == board_of_row(row.board)
                    &&& o.session_count == row.session_count
                    &&& o.running_count == row.running_count
                    &&& o.needs_attention_count == row.needs_attention_count
                },
                Err(e) => overview_row_error(row) == Some(e),
            },
    {
        let board = Board::try_from_row(row.board)?;
        let session_count = count_to_usize(row.session_count)?;
        let running_count = count_to_usize(row.running_count)?;
        let needs_attention_count = count_to_usize(row.needs_attention_count)?;
        Ok(BoardOverview { board, session_count, running_count, needs_attention_count })
    }
}

impl BoardSession {
    /// Converts a stored session: its thread must parse, its status must be
    /// the text of a status, and its times must be representable.
    pub fn try_from_row(row: BoardSessionRow) -> (r: Result<BoardSession, BoardError>)
        ensures
            match r {
                Ok(s) => session_row_error(row) is None && s == session_of_row(row),
                Err(e) => session_row_error(row) == Some(e),
            },
    {
        let thread_id = match ThreadId::parse(row.thread_id.as_str()) {
            Ok(t) => t,
            Err(_) => {
                return Err(BoardError::InvalidThreadId(row.thread_id));
            },
        };
        let status = match BoardSessionStatus::parse(row.status.as_str()) {
            Ok(s) => s,
            Err(_) => {
                return Err(BoardError::InvalidStatus(row.status));
            },
        };
        check_time(row.added_at)?;
        if let Some(removed_at) = row.removed_at {
            check_time(removed_at)?;
        }
        Ok(
            BoardSession {
                board_id: row.board_id,
                thread_id,
                title_snapshot: row.title_snapshot,
                sort_order: row.sort_order,
                status,
                last_seen_event_idx: row.last_seen_event_idx,
                last_event_idx: row.last_event_idx,
                added_at: row.added_at,
                removed_at: row.removed_at,
            },
        )
    }
}

} // verus!
