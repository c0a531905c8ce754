//! Incremental extraction of a repository's commit history into records
//! ready for storage.

pub mod git;
pub mod record_id;
pub mod text;
