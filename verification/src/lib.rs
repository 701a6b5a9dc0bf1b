//! Local editable forks of Nix packages: the naming, planning, activation and
//! sharing rules behind the `forkpkg` command.
pub mod activation;
pub mod archive;
pub mod backends;
pub mod command;
pub mod copying;
pub mod directory;
pub mod discovery;
pub mod doctor;
pub mod enabling;
pub mod forking;
pub mod git;
pub mod hashing;
pub mod ini;
pub mod laws;
pub mod listing;
pub mod metadata;
pub mod nix;
pub mod number;
pub mod order;
pub mod paths;
pub mod reports;
pub mod sharing;
pub mod snapshot;
pub mod targets;
pub mod text;
pub mod workspace;
