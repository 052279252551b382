//! The setup in which a client sends its task to the controller, which
//! passes it on to a server and the echo back.

pub mod client;
