//! Service, route and hook logic of a local development host.
pub mod json;
pub mod sdk;
pub mod sorted_map;
pub mod text;

pub use sdk::error::Error;
pub use sdk::http_response::Response;
pub use sdk::log;
pub use sdk::payload::Payload;
pub use sdk::request::{CronEvent, Request, RequestMeta};
pub use sdk::response;
pub mod config;
pub mod routes;
pub mod functions;
pub mod proxy;
pub mod project;
pub mod dev_commands;
pub mod process;
pub mod readiness;
pub mod schedule;
pub mod scheduler;
pub mod ipc;
pub mod command;
pub mod cli;
pub mod bridge;
pub mod handler;
