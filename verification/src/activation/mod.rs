//! Making a machine use a forked build output, and undoing that.
pub mod check;
pub mod keys;
pub mod layout;
pub mod plan;
pub mod preflight;
pub mod profiles;
pub mod reading;
pub mod records;
pub mod scripts;
pub mod store;
pub mod transaction;
pub mod undoing;
pub mod world;
