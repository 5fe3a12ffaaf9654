//! Metadata for the notepads of editor workspaces: records that enrich
//! notepad content, the store that keeps them, and the notepad state itself.

pub mod cli;
pub mod db;
pub mod document;
pub mod error;
pub mod keyed;
pub mod metadata;
pub mod models;
pub mod workspace;

pub use db::CursorDB;
pub use error::CursorError;
pub use metadata::{MetadataStore, StoreSnapshot};
pub use models::{
    EnrichedNotepad, NotepadData, NotepadMetadata, NotepadStatus, Timestamp, Workspace,
    WorkspaceConfig,
};
