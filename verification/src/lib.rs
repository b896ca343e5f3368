pub mod cli;
pub mod clipboard;
pub mod history;
pub mod image_cleanup;
pub mod image_store;
pub mod paste;
pub mod popup;
pub mod positioning;
pub mod settings;
pub mod storage;
pub mod text;
