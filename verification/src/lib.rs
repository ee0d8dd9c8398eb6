//! Decisions, formats and rules of the b3 command-line agent.

pub mod archives;
pub mod attach;
pub mod bytes;
pub mod child;
pub mod clock;
pub mod config;
pub mod counters;
pub mod crypto;
pub mod cursor;
pub mod ec2_proxy;
pub mod events;
pub mod files;
pub mod fork_state;
pub mod gpu_client;
pub mod hive;
pub mod hive_commands;
pub mod hive_integration;
pub mod hive_routes;
pub mod ids;
pub mod instructions;
pub mod ipc;
pub mod json;
pub mod paths;
pub mod protocol;
pub mod puller;
pub mod rtc;
pub mod server;
pub mod session;
pub mod setup;
pub mod speech;
pub mod start;
pub mod status;
pub mod terminal;
pub mod text;
pub mod update;
pub mod voice;
pub mod web;
