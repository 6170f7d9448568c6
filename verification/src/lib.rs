//! Document and view model of a hex editor: byte regions, grid perspectives
//! over them, scrollable views, automatic layout of views into a rectangle,
//! dirty-range tracking for write-back and incremental ingestion of
//! streamed sources.

pub mod app;
pub mod arena;
pub mod damage;
pub mod edit_state;
pub mod gui;
pub mod keys;
pub mod layout;
pub mod meta;
pub mod pager;
pub mod perspective;
pub mod region;
pub mod save;
pub mod source;
pub mod stream;
pub mod view;
