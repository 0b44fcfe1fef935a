//! The numbers by which the modem tells its functions apart. Every request
//! carries one of them in its `fun` field.

use vstd::prelude::*;

verus! {

/// Opens a session.
pub const LOGIN: u32 = 15;

/// Closes the session.
pub const LOGOUT: u32 = 16;

/// Reads the port forwarding table.
pub const FORWARDS: u32 = 121;

/// Adds a port forward, or changes the table.
pub const EDIT_FORWARDS: u32 = 122;

/// Reads the devices on the local network.
pub const LAN_TABLE: u32 = 123;

} // verus!
