//! What the operations promise as a whole.
pub mod activity;
pub mod building;
pub mod enabling;
pub mod forking;
mod literals;
pub mod outputs;
pub mod reporting;
pub mod sharing;
pub mod texts;
