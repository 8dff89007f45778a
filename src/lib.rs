//! A typed builder for parameterized SQL `SELECT` and batched `INSERT`
//! statements, and the request, storage and configuration logic of the
//! services built on it.
pub mod gmt_offset;
pub mod http;
pub mod insert_meetings;
pub mod models;
pub mod query_preparer;
pub mod queue;
pub mod settings;
pub mod sql_text;
pub mod text;
pub mod timestamp;
pub mod utils;
pub mod worker;
pub mod worker_settings;
