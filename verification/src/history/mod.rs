pub mod laws;
pub mod model;
pub mod order;
pub mod repository;
pub mod search;
pub mod service;

pub use model::{
    HistoryItem, HistoryItemId, HistoryPayload, ImageData, ImageMime, TextHistoryItem,
};
pub use search::HistoryQuery;
pub use service::{HistoryChange, HistoryUpdate, TextHistory};
