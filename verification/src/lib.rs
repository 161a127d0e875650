//! Drives the FreeToken inference engine for Locaryn.
pub mod call;
pub mod command;
pub mod ctl;
pub mod json;
pub mod launch;
pub mod mcp;
pub mod models;
pub mod outcome;
pub mod paths;
pub mod probe;
pub mod runtime;
pub mod settings;
pub mod shell;
pub mod text;
pub mod tools;
