//! Client core for the Compal CH7465CE cable modem, sold by several European
//! providers as the Connect Box.
//!
//! The modem is managed over HTTP: reads and writes are forms posted to two
//! fixed addresses, told apart by a function number, within a session that a
//! login opens and that the modem may end at any time. This crate holds the
//! rules of that protocol and does no I/O of its own. [`ConnectBox`] hands
//! out each exchange step by step; whoever drives it sends the requests.

pub mod client;
pub mod error;
pub mod exchange;
pub mod forwards;
pub mod functions;
pub mod models;
pub mod outside;
pub mod session;
pub mod shell;
pub mod text;

pub use client::ConnectBox;
pub use error::Error;
pub use forwards::PortForwardAction;
