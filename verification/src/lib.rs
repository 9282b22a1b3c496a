//! The synchronisation engine of a server that keeps, for each user and
//! document, the reading position and the annotations that the user's
//! devices upload.
//!
//! A reading position is replaced by every upload. Annotations are merged:
//! each document has a record with a version, and an upload made against an
//! older version is refused, so that a device reads the record again before
//! it uploads. What an accepted upload leaves is decided by [`merge`]; what
//! happens around it, by [`db`]. Neither touches a store or a socket: every
//! function takes what was read and gives what is to be written.
//!
//! The lemmas in [`merge_lemmas`] and [`db_lemmas`] state what holds of every
//! merge and of every record.

pub mod db;
pub mod db_lemmas;
pub mod error;
pub mod handlers;
pub mod merge;
pub mod merge_lemmas;
pub mod models;
pub mod text;
