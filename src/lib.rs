pub mod command;
pub mod server;
pub mod laws;
pub mod shutdown;
