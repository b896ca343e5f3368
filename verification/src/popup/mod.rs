pub mod navigation;
pub mod preview;
