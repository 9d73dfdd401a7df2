# codex_boards

Boards group chat sessions (threads) so that one window can drive several of
them. This crate is the verified core of that feature.

Layout of `src/`:

- `status.rs` – the status of a session on a board and its stored text.
- `thread_id.rs` – thread identifiers (UUIDs) and their hyphenated text.
- `text.rs` – text helpers: equality, blankness, name order, decimal numbers.
- `model.rs` – boards, board sessions and overviews; stored rows, both ways, and their checked conversion.
- `state.rs` – the store as a mathematical value, its invariant, and the transitions.
- `ordering.rs` – the listing orders of sessions (by position) and boards (recent first, then name).
- `store.rs` – `StateRuntime`, the store with every board and session operation.
- `laws.rs` – properties that hold across operations (listing after add, remove, move, hand-over and delete; overviews against lookups; saved rows read back).
- `sync.rs` – how thread events, requests and the user's operations change session statuses.
- `ui.rs` – titles, labels, picker entries and what their keys ask for, hint lines and confirmation prompts.
- `flow.rs` – the decisions a window makes around a board (bind, removal, recovery, sync plans).

`app/` keeps the store in SQLite (`registry.rs`), carries thread events over to
the boards (`sync.rs`), renders pickers and prompts as text (`picker.rs`) and
runs a window's actions against the registry and the thread host (`window.rs`).
