//! What the operations are for: what their results say, read off by name, of what they were
//! given.
pub mod asking;
pub mod checkouts;
pub mod creating;
pub mod discussing;
pub mod finding;
pub mod gathering;
pub mod hunks;
pub mod ordering;
pub mod selecting;
pub mod sending;
pub mod showing;
pub mod succeeding;
pub mod telling;
pub mod terms;
pub mod viewing;
pub mod votes;
