//! Controller logic for provisioning a Wi-Fi access point next to an existing
//! station connection: channel resolution, capability probing, the session
//! state machine, client tracking and the block list.

pub mod blocklist;
pub mod capability;
pub mod channel;
pub mod devices;
pub mod interface;
pub mod pattern;
pub mod privileged;
pub mod session;
pub mod text;
