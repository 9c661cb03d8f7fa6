//! A small terminal project tracker: epics containing stories, kept in an
//! in-memory repository with derived status rollups, driven by a page-stack
//! navigator. Persistence and terminal I/O live outside this library; the
//! data rules, the rollup algorithm, the command parsing and the navigation
//! state machine are all verified here.

pub mod models;
pub mod navigator;
pub mod page_helpers;
pub mod pages;
pub mod parse;
pub mod store;

pub use models::Action;
pub use models::Epic;
pub use models::EpicView;
pub use models::Status;
pub use models::Story;
pub use models::StoryView;
