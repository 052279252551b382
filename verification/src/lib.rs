//! Task dispatch between clients, a controller and a pool of echo servers.
//!
//! The controller receives a task size from a client, picks (or starts) a
//! server with enough capacity for it and hands the server's address back.
//! This crate holds the bookkeeping, the wire format and the message checks;
//! the sockets, threads and clocks live in the program around it.

pub mod wire;
pub mod helper;
pub mod server;
pub mod controller;
pub mod client;
pub mod client_based;
pub mod task;
pub mod task_based;
