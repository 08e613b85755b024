//! Verified core of a desktop video library manager: the folder and tag
//! models, the rules of incremental scanning, and the construction of the
//! database queries and exports.
pub mod folders;
pub mod logs;
pub mod media;
pub mod models;
pub mod scanner;
pub mod sql;
pub mod stats;
pub mod tags;
pub mod text;
pub mod videos;
