pub mod autostart;
pub mod service;

pub use service::{nearest_history_limit, Defaults, HISTORY_LIMIT_CHOICES};
