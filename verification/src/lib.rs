//! An in-memory spreadsheet document engine: sheets of cells, edit
//! operations that can be undone and redone, and a token index over the
//! texts of the cells that answers searches for whole cells.
//!
//! The document model is in `types`, the operations on it in `grid` and
//! `operation`, the editor with its history in `editor_state`. The index is
//! built and kept in `index_ops` and read by `search_ops`. The calls that an
//! application makes on the document under edit are in `cell_ops`,
//! `editor_ops` and `file_ops`. What undo, redo and the index promise is
//! stated and proved in `round_trip`, `index_laws` and `consistency`.

pub mod error;
pub mod types;
pub mod text;
pub mod formats;
pub mod index_ops;
pub mod index_laws;
pub mod grid;
pub mod operation;
pub mod editor_state;
pub mod round_trip;
pub mod consistency;
pub mod search_ops;
pub mod editor_ops;
pub mod cell_ops;
pub mod file_ops;
