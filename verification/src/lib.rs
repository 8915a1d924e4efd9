//! Verified core of a human-on-the-loop agent front end.
pub mod acp;
pub mod approve_cli;
pub mod attach;
pub mod base64;
pub mod bg;
pub mod clipboard;
pub mod config;
pub mod connection;
pub mod diffgen;
pub mod doctor;
pub mod engine;
pub mod gc;
pub mod history;
pub mod images;
pub mod json;
pub mod keysource;
pub mod launch;
pub mod lineage;
pub mod mcp_cli;
pub mod measure;
pub mod paths;
pub mod plugins;
pub mod plugins_cli;
pub mod provider;
pub mod sandbox;
pub mod session_server;
pub mod setup;
pub mod shell_hooks;
pub mod startup;
pub mod surface;
pub mod text;
pub mod toml_text;
pub mod undo;
pub mod vars;
pub mod winargs;
