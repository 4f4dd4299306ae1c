pub mod match_highlight;
pub mod ranking;
pub mod router;
pub mod types;
