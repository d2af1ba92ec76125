//! Core of a desktop client for push-notification servers: URL identity,
//! message decoding, the local message store, the connection supervisor's
//! decisions and the reconciliation of local state with a server's view.

pub mod commands;
pub mod config;
pub mod db;
pub mod error;
mod ids;
pub mod json;
pub mod laws;
pub mod models;
pub mod seqs;
pub mod services;
pub mod text;
