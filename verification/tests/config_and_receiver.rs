use udpproxy::ClientIdentity;
use udpproxy::Config;
use udpproxy::ConfigError;
use udpproxy::IpModel;
use udpproxy::ReceiverAction;
use udpproxy::draw_ephemeral_port;
use udpproxy::package_reply;
use udpproxy::receiver_step;
use udpproxy::receiver_read_timeout_millis;
use udpproxy::EPHEMERAL_PORT_FLOOR;
use udpproxy::RECEIVER_MARGIN_MILLIS;
use udpproxy::ROUND_MILLIS;

#[test]
fn config_requires_local_port() {
    let r = Config::build(None, Some(9001), Some(String::from("10.0.0.5")), None, false);
    assert_eq!(r.unwrap_err(), ConfigError::MissingLocalPort);
}

#[test]
fn config_requires_remote_port() {
    let r = Config::build(Some(9000), None, Some(String::from("10.0.0.5")), None, false);
    assert_eq!(r.unwrap_err(), ConfigError::MissingRemotePort);
}

#[test]
fn config_requires_remote_host() {
    let r = Config::build(Some(9000), Some(9001), None, None, false);
    assert_eq!(r.unwrap_err(), ConfigError::MissingRemoteHost);
}

#[test]
fn config_defaults_bind_to_loopback() {
    let c = Config::build(Some(9000), Some(9001), Some(String::from("10.0.0.5")), None, false)
        .unwrap();
    assert_eq!(c.bind_addr, "127.0.0.1");
    assert!(!c.debug);
    assert!(!c.trace_enabled());
}

#[test]
fn config_keeps_explicit_values() {
    let c = Config::build(
        Some(5353),
        Some(53),
        Some(String::from("198.51.100.7")),
        Some(String::from("0.0.0.0")),
        true,
    )
    .unwrap();
    assert_eq!(c.bind_addr, "0.0.0.0");
    assert_eq!(c.local_port, 5353);
    assert_eq!(c.remote_host, "198.51.100.7");
    assert_eq!(c.remote_port, 53);
    assert!(c.trace_enabled());
}

#[test]
fn receiver_decisions() {
    assert_eq!(receiver_step(false, true), ReceiverAction::ForwardToClient);
    assert_eq!(receiver_step(true, true), ReceiverAction::ForwardToClient);
    assert_eq!(receiver_step(false, false), ReceiverAction::KeepWaiting);
    assert_eq!(receiver_step(true, false), ReceiverAction::Terminate);
}

#[test]
fn packaged_reply_is_unmodified() {
    let c = ClientIdentity::v6(1, 443);
    let item = package_reply(c, vec![0u8, 255u8, 128u8]);
    assert_eq!(item.identity, c);
    assert_eq!(item.identity.ip, IpModel::V6(1));
    assert_eq!(item.payload, vec![0u8, 255u8, 128u8]);
}

#[test]
fn receiver_timeout_exceeds_one_round() {
    assert_eq!(receiver_read_timeout_millis(), ROUND_MILLIS + RECEIVER_MARGIN_MILLIS);
    assert_eq!(receiver_read_timeout_millis(), 18100);
    assert!(receiver_read_timeout_millis() > ROUND_MILLIS);
}

#[test]
fn ephemeral_ports_avoid_reserved_range() {
    for _ in 0..100 {
        let p = draw_ephemeral_port();
        assert!(p >= EPHEMERAL_PORT_FLOOR);
        assert!(p <= EPHEMERAL_PORT_FLOOR + u16::MAX as u32);
    }
}
