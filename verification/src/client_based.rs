//! The setup in which clients ask the controller for a server, talk to that
//! server themselves, and report back to the controller when they are done.

pub mod controller;
pub mod client;
