//! Verified core of a realtime transcription tool.
pub mod backend;
pub mod cli;
pub mod client;
pub mod clipboard;
pub mod commands;
pub mod config;
pub mod daemon;
pub mod doctor;
pub mod error;
pub mod fields;
pub mod hooks;
pub mod input;
pub mod json;
pub mod process;
pub mod progress;
pub mod realtime;
pub mod recording;
pub mod text;
pub mod transcript;
pub mod ui_client;
pub mod ui_ipc;
pub mod ui_tail;
