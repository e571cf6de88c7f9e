//! Duckize: a terminal browser that previews CSV and Excel files and imports a
//! chosen rectangle of cells into an in-memory DuckDB database.
//!
//! This crate holds the verified core of the application: the screen state of
//! each view, the key handling state machine, the ordering of directory
//! listings, the selection arithmetic of the data preview, the SQL text that an
//! import sends and the status texts that the user reads.  Terminal drawing,
//! file and database access live in the binary around it.

pub mod selection;
pub mod text;
pub mod paths;
pub mod file_browser;
pub mod sources;
pub mod data_preview;
pub mod sql;
pub mod table_viewer;
pub mod app;
