pub mod media_command;
pub mod media;
pub mod port_allocator;
pub mod endpoint;
pub mod endpoint_builder;
pub mod pool;
pub mod timer;
