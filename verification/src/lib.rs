//! Reports on the records of a Windows search index: classification of
//! rows, normalization of their values, and sinks for JSON, CSV and SQL.

pub mod columns;
pub mod csv;
pub mod error;
pub mod ese;
pub mod json;
pub mod laws;
pub mod mssql;
pub mod order;
pub mod producer;
pub mod record;
pub mod report;
pub mod seqs;
pub mod text;
pub mod time;
pub mod utils;
