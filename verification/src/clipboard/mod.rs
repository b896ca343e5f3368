pub mod capture;
pub mod suppression;

pub use suppression::SelfWriteSuppression;
