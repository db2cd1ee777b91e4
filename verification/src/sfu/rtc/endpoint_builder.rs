//! Settings for the peer connections that the RTC layer builds.
use vstd::prelude::*;
use crate::sfu::config::SfuConfig;
use crate::sfu::rtc::port_allocator::{acquired, PortAllocator, PortLease};

verus! {

/// What a peer connection of an endpoint is built with: the SFU configuration, the
/// size of its dedicated reactor pool (zero: none) and the limit of what its data
/// channels may buffer for sending.
#[derive(Debug, Clone)]
pub struct EndpointBuilder {
    config: SfuConfig,
    dedicated_reactor_pool_size: usize,
    data_channel_send_buffer_limit: usize,
}

impl EndpointBuilder {
    /// The advertised address that endpoints announce (empty: none).
    pub closed spec fn spec_advertised_ip(&self) -> Seq<char> {
        self.config.advertised_ip@
    }

    /// The address that endpoints bind.
    pub closed spec fn spec_bind_ip(&self) -> Seq<char> {
        self.config.bind_ip@
    }

    pub closed spec fn spec_reactor_pool_size(&self) -> usize {
        self.dedicated_reactor_pool_size
    }

    pub closed spec fn spec_send_buffer_limit(&self) -> usize {
        self.data_channel_send_buffer_limit
    }

    /// Settings from the SFU configuration: no dedicated reactor pool and no limit on
    /// data channel buffers.
    pub fn from_sfu_config(config: &SfuConfig) -> (b: Self)
        ensures
            b.spec_advertised_ip() == config.advertised_ip@,
            b.spec_bind_ip() == config.bind_ip@,
            b.spec_reactor_pool_size() == 0,
            b.spec_send_buffer_limit() == usize::MAX,
    {
        EndpointBuilder {
            config: config.duplicate(),
            dedicated_reactor_pool_size: 0,
            data_channel_send_buffer_limit: usize::MAX,
        }
    }

    pub fn with_dedicated_reactor_pool_size(self, size: usize) -> (b: Self)
        ensures
            b.spec_advertised_ip() == self.spec_advertised_ip(),
            b.spec_bind_ip() == self.spec_bind_ip(),
            b.spec_reactor_pool_size() == size,
            b.spec_send_buffer_limit() == self.spec_send_buffer_limit(),
    {
        let mut b = self;
        b.dedicated_reactor_pool_size = size;
        b
    }

    pub fn with_data_channel_send_buffer_limit(self, bytes: usize) -> (b: Self)
        ensures
            b.spec_advertised_ip() == self.spec_advertised_ip(),
            b.spec_bind_ip() == self.spec_bind_ip(),
            b.spec_reactor_pool_size() == self.spec_reactor_pool_size(),
            b.spec_send_buffer_limit() == bytes,
    {
        let mut b = self;
        b.data_channel_send_buffer_limit = bytes;
        b
    }

    /// The reactor pool size that endpoints get.
    pub fn dedicated_reactor_pool_size(&self) -> (n: usize)
        ensures
            n == self.spec_reactor_pool_size(),
    {
        self.dedicated_reactor_pool_size
    }

    /// The data channel send buffer limit that endpoints get.
    pub fn data_channel_send_buffer_limit(&self) -> (n: usize)
        ensures
            n == self.spec_send_buffer_limit(),
    {
        self.data_channel_send_buffer_limit
    }

    /// The address that endpoints announce as their 1:1 NAT address, if one is
    /// configured: with one the ICE agent runs in lite mode.
    pub fn nat_1to1_ip(&self) -> (r: Option<String>)
        ensures
            self.spec_advertised_ip().len() == 0 ==> r is None,
            self.spec_advertised_ip().len() > 0 ==> r is Some && r->0@ == self.spec_advertised_ip(),
    {
        if self.config.advertised_ip.unicode_len() == 0 {
            None
        } else {
            Some(self.config.advertised_ip.clone())
        }
    }

    /// What the peer connection of a new endpoint is built with: a leased port, bound on
    /// all interfaces, and the 1:1 NAT address to announce (with which the ICE agent runs
    /// in lite mode). Fails when every port of the block is leased.
    pub fn setup(&self, ports: &mut PortAllocator) -> (r: Result<EndpointSetup, EndpointBuildError>)
        requires
            old(ports).wf(),
        ensures
            final(ports).wf(),
            final(ports).spec_start() == old(ports).spec_start(),
            final(ports).spec_end() == old(ports).spec_end(),
            match r {
                Ok(s) => {
                    &&& acquired(*old(ports), *final(ports), s.lease)
                    &&& s.bind_ip == [0u8, 0u8, 0u8, 0u8]
                    &&& self.spec_advertised_ip().len() == 0 ==> s.nat_1to1_ip is None
                    &&& self.spec_advertised_ip().len() > 0 ==> s.nat_1to1_ip is Some
                        && s.nat_1to1_ip->0@ == self.spec_advertised_ip()
                },
                Err(e) => {
                    &&& e matches EndpointBuildError::Socket(m) && m@ == "no free UDP ports"@
                    &&& old(ports).free_ports() == Set::<u16>::empty()
                    &&& final(ports).free_ports() == old(ports).free_ports()
                },
            },
    {
        let lease = match ports.acquire() {
            Some(l) => l,
            None => return Err(EndpointBuildError::Socket(String::from_str("no free UDP ports"))),
        };
        Ok(EndpointSetup { lease, bind_ip: [0, 0, 0, 0], nat_1to1_ip: self.nat_1to1_ip() })
    }
}

/// Why an endpoint could not be built.
#[derive(Debug)]
pub enum EndpointBuildError {
    Socket(String),
    EndpointBuild(String),
}

/// The network side of a new endpoint's peer connection: the port it leases, the IPv4
/// address it binds (all interfaces), and the address it announces, if any.
#[derive(Debug)]
pub struct EndpointSetup {
    pub lease: PortLease,
    pub bind_ip: [u8; 4],
    pub nat_1to1_ip: Option<String>,
}

} // verus!
