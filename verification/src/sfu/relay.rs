pub mod cmaf;
pub mod error;
pub mod port_allocator;
pub mod rtp_forwarder;
pub mod stream;
pub mod supervisor;
