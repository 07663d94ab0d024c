//! The buffered connection and the registry that routes readiness events
//! to it.

pub mod connection;
pub mod connections;

pub use connection::Connection;
pub use connections::Connections;
