//! Decisions of a review tool that lists the files changed between two
//! revisions, drops those that an ignore file excludes, and asks for the diff
//! of the rest.
pub mod text;
pub mod vcs;
pub mod filter;
pub mod review;
