//! Live-session broadcast core for a task-streaming overlay server.
//!
//! A single authoritative process holds a small piece of shared state (a task
//! list and a topic label) and pushes change notifications to any number of
//! passively connected viewers.  The heart of the crate is the session
//! registry and broadcast coordinator ([`session::SessionManager`]) together
//! with the per-connection lifecycle and heartbeat state machine
//! ([`lifecycle::TaskSession`]).  Around it stand the plain data the server
//! and its command-line client exchange: the topic ([`schema::Topic`]), the
//! configuration ([`config::Config`]), and the argument handling for the
//! task-export helper ([`tasks`]).

pub mod app;
pub mod client;
pub mod config;
pub mod lifecycle;
pub mod schema;
pub mod session;
pub mod tasks;
