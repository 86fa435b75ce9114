//! A single-writer editing engine for invoices: one focal document, an index
//! of summaries over all stored documents, bounded undo/redo, and the paths
//! under which documents and their attachments are stored.
pub mod model;
pub mod total;
pub mod text;
pub mod fresh;
pub mod calendar;
pub mod paths;
pub mod index;
pub mod history;
pub mod items;
pub mod engine;
pub mod laws;
