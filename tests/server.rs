use xtool::packet::{ErrorCode, Packet};
use xtool::server::{
    check_request, classify, on_oack_reply, path_escapes_root, route, run, Config, Direction, IpAddress,
    OackReply, PeerAddr, Request, ServerError,
};
use xtool::transfer::TransferError;

fn request(direction: Direction, name: &[u8]) -> Request {
    Request { direction, filename: name.to_vec(), mode: b"octet".to_vec(), options: vec![] }
}

#[test]
fn run_needs_existing_directory() {
    assert_eq!(
        run(IpAddress::V4(0), 69, "/nope".to_string(), false, false, false).unwrap_err(),
        ServerError::DirectoryMissing
    );
    let c = run(IpAddress::V6(1), 6969, "/srv".to_string(), true, true, true).unwrap();
    assert_eq!(c.ip_address, IpAddress::V6(1));
    assert_eq!(c.port, 6969);
    assert_eq!(c.receive_directory, "/srv");
    assert_eq!(c.send_directory, "/srv");
    assert!(c.read_only && c.single_port && c.overwrite);
}

#[test]
fn config_defaults() {
    let c = Config::new(IpAddress::V4(0x7f000001), 69, "/tmp".to_string(), false);
    assert!(!c.single_port && !c.read_only && c.overwrite);
    assert_eq!(c.opt_local.retry_limit, 6);
    assert!(c.with_single_port(true).single_port);
}

#[test]
fn listener_drops_non_requests() {
    assert!(classify(&[0, 4, 0, 1]).is_none());
    assert!(classify(&[0, 3, 0, 1, 5]).is_none());
    assert!(classify(&[0, 1, b'x']).is_none());
    let r = classify(b"\x00\x01x\x00octet\x00").unwrap();
    assert_eq!(r.direction, Direction::Read);
    assert_eq!(r.filename, b"x".to_vec());
}

#[test]
fn path_policy() {
    assert!(path_escapes_root(&b"/etc/passwd".to_vec()));
    assert!(path_escapes_root(&b"..".to_vec()));
    assert!(path_escapes_root(&b"a/../../b".to_vec()));
    assert!(path_escapes_root(&b"a\\..\\b".to_vec()));
    assert!(!path_escapes_root(&b"a..b".to_vec()));
    assert!(!path_escapes_root(&b"dir/file..txt".to_vec()));
    assert!(!path_escapes_root(&b"".to_vec()));
}

#[test]
fn request_policy() {
    let rw = Config::new(IpAddress::V4(0), 69, "/srv".to_string(), false);
    let ro = Config::new(IpAddress::V4(0), 69, "/srv".to_string(), true);
    let mut no_overwrite = rw.clone();
    no_overwrite.overwrite = false;
    assert_eq!(check_request(&rw, &request(Direction::Read, b"a"), false), Err(ErrorCode::FileNotFound));
    assert_eq!(check_request(&rw, &request(Direction::Read, b"a"), true), Ok(()));
    assert_eq!(check_request(&ro, &request(Direction::Read, b"a"), true), Ok(()));
    assert_eq!(check_request(&ro, &request(Direction::Write, b"a"), false), Err(ErrorCode::AccessViolation));
    assert_eq!(check_request(&rw, &request(Direction::Write, b"a"), true), Ok(()));
    assert_eq!(check_request(&no_overwrite, &request(Direction::Write, b"a"), true), Err(ErrorCode::FileExists));
    assert_eq!(check_request(&rw, &request(Direction::Read, b"../x"), true), Err(ErrorCode::AccessViolation));
}

#[test]
fn oack_reply_handling() {
    assert_eq!(on_oack_reply(&Packet::Ack(0)), OackReply::Confirmed);
    assert_eq!(on_oack_reply(&Packet::Ack(1)), OackReply::Fail(TransferError::Protocol));
    assert_eq!(
        on_oack_reply(&Packet::Error { code: 8, msg: vec![] }),
        OackReply::Fail(TransferError::Peer(8))
    );
}

#[test]
fn shared_socket_routing() {
    let a = PeerAddr { ip: IpAddress::V4(1), port: 1000 };
    let b = PeerAddr { ip: IpAddress::V4(1), port: 1001 };
    let c = PeerAddr { ip: IpAddress::V4(2), port: 1000 };
    let peers = vec![a, b];
    assert_eq!(route(&peers, b), Some(1));
    assert_eq!(route(&peers, a), Some(0));
    assert_eq!(route(&peers, c), None);
    assert_eq!(route(&vec![], a), None);
}
