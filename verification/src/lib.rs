//! Verified core of a WebRTC selective forwarding unit: identifiers, the
//! forwarding table, the control-channel queueing rules, ICE ufrag routing,
//! port allocation, CMAF box splitting and the small text formats the SFU
//! speaks on the wire.
pub mod sfu;
pub mod util;
