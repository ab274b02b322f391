//! What is stored, and what the database's replies mean.
//!
//! The statements themselves run in the program around the library. Each
//! function here takes what a statement gave back and says what it amounts to:
//! the row as a value, or the error a caller can act on.

pub mod accounts;
pub mod api_keys;
pub mod audit;
pub mod error;
pub mod experiments;
pub mod flags;
pub mod json;
pub mod models;
pub mod notify;
pub mod pool;
pub mod projects;
pub mod rows;
pub mod seeding;
pub mod segments;
pub mod snapshot;
