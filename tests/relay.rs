use xtool::client::ClientConfig;
use xtool::relay::{resolve, RelayError, SerialConfig};
use xtool::server::IpAddress;

#[test]
fn relay_defaults_apply() {
    let s = resolve(Some("/dev/ttyUSB0".to_string()), None, None, None, None).unwrap();
    assert_eq!(s.uart, "/dev/ttyUSB0");
    assert_eq!(s.baud, 115200);
    assert_eq!(s.port, 5432);
    assert_eq!(s.bind, "0.0.0.0");
}

#[test]
fn relay_arguments_beat_config() {
    let config = SerialConfig {
        uart: Some("/dev/ttyS1".to_string()),
        baud: Some(9600),
        net_port: Some(7000),
        net_bind: Some("127.0.0.1".to_string()),
    };
    let s = resolve(None, Some(57600), None, None, Some(config.clone())).unwrap();
    assert_eq!(s.uart, "/dev/ttyS1");
    assert_eq!(s.baud, 57600);
    assert_eq!(s.port, 7000);
    assert_eq!(s.bind, "127.0.0.1");
    let t = resolve(Some("COM3".to_string()), None, Some(1), Some("::".to_string()), Some(config)).unwrap();
    assert_eq!(t.uart, "COM3");
    assert_eq!(t.baud, 9600);
    assert_eq!(t.port, 1);
    assert_eq!(t.bind, "::");
}

#[test]
fn relay_needs_a_serial_port() {
    let config = SerialConfig { uart: None, baud: Some(1), net_port: None, net_bind: None };
    assert_eq!(resolve(None, None, None, None, Some(config)).unwrap_err(), RelayError::NoSerialPort);
    assert_eq!(resolve(None, None, None, None, None).unwrap_err(), RelayError::NoSerialPort);
}

#[test]
fn client_config_default() {
    let c = ClientConfig::default();
    assert_eq!(c.server_ip, IpAddress::V4(0x7f000001));
    assert_eq!(c.server_port, 69);
    assert_eq!(c.block_size, 512);
    assert_eq!(c.window_size, 1);
    assert_eq!(c.timeout_secs, 5);
    assert_eq!(c.mode, b"octet".to_vec());
}
