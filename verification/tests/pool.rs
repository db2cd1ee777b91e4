use sfu::sfu::config::{RtcAssignmentStrategy, SfuConfig};
use sfu::sfu::lobby::LobbyId;
use sfu::sfu::rtc::pool::{IpAddress, LayoutError, PoolError, RtcAssignmentPool, RtcCoreLayout};

fn unspecified() -> Option<IpAddress> {
    Some(IpAddress::V4([0, 0, 0, 0]))
}

#[test]
fn consecutive_port_block_is_accepted() {
    let config = SfuConfig { cores: 3, base_port: 50_000, ..Default::default() };
    let layout = RtcCoreLayout::from_config(&config, unspecified(), None, Some(8)).unwrap();
    assert_eq!(layout.core_count, 3);
    assert_eq!(layout.base_port, 50_000);
}

#[test]
fn overflowing_port_block_is_rejected() {
    let config = SfuConfig { cores: 3, base_port: 65_534, ..Default::default() };
    assert!(RtcCoreLayout::from_config(&config, unspecified(), None, Some(8)).is_err());
}

#[test]
fn layout_defaults_and_errors() {
    let config = SfuConfig::default();
    let layout = RtcCoreLayout::from_config(&config, unspecified(), None, Some(4)).unwrap();
    assert_eq!(layout.core_count, 4);
    assert_eq!(layout.advertised_ip, IpAddress::V4([127, 0, 0, 1]));
    assert_eq!(layout.core_port(3), 50_003);
    let layout = RtcCoreLayout::from_config(&config, unspecified(), None, None).unwrap();
    assert_eq!(layout.core_count, 1);
    let bound = Some(IpAddress::V4([10, 0, 0, 5]));
    let layout = RtcCoreLayout::from_config(&config, bound, None, Some(2)).unwrap();
    assert_eq!(layout.advertised_ip, IpAddress::V4([10, 0, 0, 5]));
    assert_eq!(RtcCoreLayout::from_config(&config, None, None, Some(2)), Err(LayoutError::InvalidBindIp));
    let advertised = SfuConfig { advertised_ip: "not an ip".to_owned(), ..Default::default() };
    assert_eq!(
        RtcCoreLayout::from_config(&advertised, unspecified(), None, Some(2)),
        Err(LayoutError::InvalidAdvertisedIp)
    );
    let many = SfuConfig { cores: 70_000, base_port: 0, ..Default::default() };
    assert_eq!(
        RtcCoreLayout::from_config(&many, unspecified(), None, None),
        Err(LayoutError::CoresExceedPortSpace { cores: 70_000 })
    );
    let edge = SfuConfig { cores: 2, base_port: 65_534, ..Default::default() };
    assert!(RtcCoreLayout::from_config(&edge, unspecified(), None, None).is_ok());
    let over = SfuConfig { cores: 3, base_port: 65_534, ..Default::default() };
    assert_eq!(
        RtcCoreLayout::from_config(&over, unspecified(), None, None),
        Err(LayoutError::PortBlockOverflow { base_port: 65_534, cores: 3 })
    );
}

#[test]
fn least_loaded_assignment_is_sticky_and_balanced() {
    let mut pool = RtcAssignmentPool::new(RtcAssignmentStrategy::LeastLoaded, 3);
    let a = LobbyId::new("a");
    let b = LobbyId::new("b");
    let c = LobbyId::new("c");
    let d = LobbyId::new("d");
    assert_eq!(pool.assign_lobby(&a), Ok(0));
    assert_eq!(pool.assign_lobby(&b), Ok(1));
    assert_eq!(pool.assign_lobby(&a), Ok(0));
    assert_eq!(pool.assign_lobby(&c), Ok(2));
    assert_eq!(pool.assign_lobby(&d), Ok(0));
    pool.release_lobby(&b);
    assert_eq!(pool.assign_lobby(&LobbyId::new("e")), Ok(1));
    assert_eq!(pool.core_id(2), 2);
    assert_eq!(pool.core_count(), 3);
}

#[test]
fn round_robin_assignment_cycles() {
    let mut pool = RtcAssignmentPool::new(RtcAssignmentStrategy::RoundRobin, 2);
    assert_eq!(pool.assign_lobby(&LobbyId::new("a")), Ok(0));
    assert_eq!(pool.assign_lobby(&LobbyId::new("b")), Ok(1));
    assert_eq!(pool.assign_lobby(&LobbyId::new("c")), Ok(0));
    assert_eq!(pool.assign_lobby(&LobbyId::new("b")), Ok(1));
}

#[test]
fn empty_pool_has_no_core_to_assign() {
    let mut pool = RtcAssignmentPool::new(RtcAssignmentStrategy::LeastLoaded, 0);
    assert_eq!(pool.assign_lobby(&LobbyId::new("a")), Err(PoolError::NoCores));
}

#[test]
fn a_lobby_stays_on_its_core_while_others_come_and_go() {
    let mut pool = RtcAssignmentPool::new(RtcAssignmentStrategy::RoundRobin, 3);
    let a = LobbyId::new("a");
    assert_eq!(pool.assign_lobby(&a), Ok(0));
    assert_eq!(pool.assign_lobby(&LobbyId::new("b")), Ok(1));
    pool.release_lobby(&LobbyId::new("b"));
    assert_eq!(pool.assign_lobby(&LobbyId::new("c")), Ok(2));
    assert_eq!(pool.assign_lobby(&a), Ok(0));
    // The repeated assignment moved no round-robin position.
    assert_eq!(pool.assign_lobby(&LobbyId::new("d")), Ok(0));
}
