//! troop: turn incoming messages into tasks stored as files, managed from a web UI.
pub mod text;
pub mod time;
pub mod message;
pub mod config;
pub mod filter;
pub mod commands;
pub mod storage;
pub mod smtp;
pub mod source;
pub mod jobs;
pub mod web;
