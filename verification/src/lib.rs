//! wtree's verified core: parsing of git's output, the plans of the git
//! commands that wtree runs, the search for the repository's top directory,
//! and the state machines behind its terminal screens.
pub mod branch;
pub mod commit;
pub mod diff;
pub mod dir;
pub mod keys;
pub mod report;
pub mod staging;
pub mod status;
pub mod text;
