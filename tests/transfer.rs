use xtool::client::{Client, ClientConfig, ReadStart};
use xtool::options::{OptionsPrivate, OptionsProtocol, RequestType};
use xtool::packet::{OptionType, Packet, TransferOption};
use xtool::server::{
    check_request, classify, error_packet, negotiate_request, on_oack_reply, transfer_timeout_secs, upload_ack, Config,
    Direction, IpAddress, OackReply,
};
use xtool::transfer::{Phase, ReceiveAction, Receiver, RetryCounter, SendAction, Sender, TransferError};
use xtool::window::Window;

fn profile(block_size: u16, window_size: u16) -> OptionsProtocol {
    OptionsProtocol { block_size, window_size, timeout_secs: 5, transfer_size: None }
}

fn data_of(p: &Packet) -> (u16, Vec<u8>) {
    match p {
        Packet::Data { block_num, data } => (*block_num, data.clone()),
        other => panic!("not a DATA packet: {:?}", other),
    }
}

/// Drives a sender and a receiver against each other over a lossless link
/// and returns the bytes written and the DATA block numbers sent.
fn run_transfer(source: Vec<u8>, p: OptionsProtocol) -> (Vec<u8>, Vec<u16>) {
    let mut tx = Sender::new(p, 3, source);
    let mut rx = Receiver::new(p, 3);
    let mut written = Vec::new();
    let mut numbers = Vec::new();
    let mut packets = tx.fill_window();
    loop {
        let mut last_ack = None;
        for pk in &packets {
            let (n, d) = data_of(pk);
            numbers.push(n);
            match rx.on_packet(pk) {
                ReceiveAction::Write { ack, complete: _ } => {
                    written.extend_from_slice(&d);
                    if let Some(a) = ack {
                        last_ack = Some(a);
                    }
                }
                other => panic!("unexpected {:?}", other),
            }
        }
        let a = last_ack.expect("window ends with an ACK");
        match tx.on_packet(&Packet::Ack(a)) {
            SendAction::Complete => break,
            SendAction::SendWindow => packets = tx.fill_window(),
            other => panic!("unexpected {:?}", other),
        }
    }
    assert_eq!(rx.phase, Phase::Completed);
    assert_eq!(tx.phase(), Phase::Completed);
    (written, numbers)
}

fn block_count_of(len: usize, bs: u16, ws: u16) -> usize {
    let mut w = Window::new(ws, bs, vec![7u8; len]);
    let mut n = 0;
    loop {
        let more = w.fill();
        n += w.get_elements().len();
        w.clear();
        if !more {
            return n;
        }
    }
}

#[test]
fn window_block_counts() {
    assert_eq!(block_count_of(0, 512, 1), 1);
    assert_eq!(block_count_of(1, 512, 1), 1);
    assert_eq!(block_count_of(511, 512, 4), 1);
    assert_eq!(block_count_of(512, 512, 1), 2);
    assert_eq!(block_count_of(1000, 512, 3), 2);
    assert_eq!(block_count_of(1024, 512, 2), 3);
    assert_eq!(block_count_of(1025, 8, 16), 129);
}

#[test]
fn window_fill_and_clear() {
    let mut w = Window::new(2, 4, vec![1, 2, 3, 4, 5, 6, 7, 8, 9]);
    assert!(w.fill());
    assert_eq!(w.get_elements(), &vec![vec![1, 2, 3, 4], vec![5, 6, 7, 8]]);
    assert!(w.fill());
    assert_eq!(w.get_elements().len(), 2);
    w.clear();
    assert!(w.get_elements().is_empty());
    assert!(!w.fill());
    assert_eq!(w.get_elements(), &vec![vec![9]]);
    assert!(w.end_reached());
}

#[test]
fn block_numbers_wrap_around() {
    let bs: u16 = 8;
    let blocks = 70000usize;
    let source: Vec<u8> = (0..blocks * bs as usize + 3).map(|i| (i % 251) as u8).collect();
    let (written, numbers) = run_transfer(source.clone(), profile(bs, 16));
    assert_eq!(written, source);
    assert_eq!(numbers.len(), blocks + 1);
    assert_eq!(numbers[0], 1);
    assert_eq!(numbers[65534], 65535);
    assert_eq!(numbers[65535], 0);
    assert_eq!(numbers[65536], 1);
    for (k, n) in numbers.iter().enumerate() {
        assert_eq!(*n as usize, (k + 1) % 65536);
    }
}

#[test]
fn duplicate_data_is_not_written_twice() {
    let mut rx = Receiver::new(profile(512, 1), 5);
    assert_eq!(rx.on_data(1, 512), ReceiveAction::Write { ack: Some(1), complete: false });
    assert_eq!(rx.on_data(1, 512), ReceiveAction::Reack(1));
    assert_eq!(rx.on_data(3, 512), ReceiveAction::Reack(1));
    assert_eq!(rx.expected, 2);
    assert_eq!(rx.on_data(2, 100), ReceiveAction::Write { ack: Some(2), complete: true });
    assert_eq!(rx.phase, Phase::Completed);
}

#[test]
fn out_of_order_before_first_block_reacks_zero() {
    let mut rx = Receiver::new(profile(512, 1), 5);
    assert_eq!(rx.on_data(2, 512), ReceiveAction::Reack(0));
}

#[test]
fn receiver_fails_after_retry_limit() {
    let mut rx = Receiver::new(profile(512, 1), 3);
    for _ in 0..3 {
        assert_eq!(rx.on_timeout(), ReceiveAction::Reack(0));
    }
    assert_eq!(rx.on_timeout(), ReceiveAction::Fail(TransferError::Timeout));
    assert_eq!(rx.phase, Phase::Failed(TransferError::Timeout));
}

#[test]
fn sender_fails_after_retry_limit() {
    let mut tx = Sender::new(profile(512, 1), 2, vec![1, 2, 3]);
    let first = tx.fill_window();
    assert_eq!(first.len(), 1);
    assert_eq!(tx.on_timeout(), SendAction::Resend);
    assert_eq!(tx.window_packets(), first);
    assert_eq!(tx.on_timeout(), SendAction::Resend);
    assert_eq!(tx.on_timeout(), SendAction::Fail(TransferError::Timeout));
    assert_eq!(tx.phase(), Phase::Failed(TransferError::Timeout));
}

#[test]
fn retry_counter_resets_on_reply() {
    let mut c = RetryCounter::new(1);
    assert!(c.on_timeout());
    assert!(!c.on_timeout());
    c.reset();
    assert_eq!(c, RetryCounter { retries: 0, limit: 1 });
}

#[test]
fn error_packet_ends_transfer() {
    let mut rx = Receiver::new(profile(512, 1), 3);
    let e = Packet::Error { code: 3, msg: b"Disk full".to_vec() };
    assert_eq!(rx.on_packet(&e), ReceiveAction::Fail(TransferError::Peer(3)));
    let mut tx = Sender::new(profile(512, 1), 3, vec![]);
    tx.fill_window();
    assert_eq!(tx.on_packet(&e), SendAction::Fail(TransferError::Peer(3)));
    let mut tx2 = Sender::new(profile(512, 1), 3, vec![]);
    tx2.fill_window();
    assert_eq!(tx2.on_packet(&Packet::Oack(vec![])), SendAction::Fail(TransferError::Protocol));
}

#[test]
fn stale_ack_is_ignored() {
    let mut tx = Sender::new(profile(8, 2), 3, vec![0u8; 40]);
    let w = tx.fill_window();
    assert_eq!(w.iter().map(|p| data_of(p).0).collect::<Vec<_>>(), vec![1, 2]);
    assert_eq!(tx.on_ack(0), SendAction::Ignore);
    assert_eq!(tx.on_ack(3), SendAction::Ignore);
    assert_eq!(tx.on_ack(1), SendAction::SendWindow);
    let w2 = tx.fill_window();
    assert_eq!(w2.iter().map(|p| data_of(p).0).collect::<Vec<_>>(), vec![3, 4]);
}

#[test]
fn get_of_empty_file() {
    // server side: an RRQ without options for an empty file
    let req = classify(&Packet::Rrq { filename: b"empty".to_vec(), mode: b"octet".to_vec(), options: vec![] }
        .serialize()
        .unwrap())
    .unwrap();
    let (p, oack) = negotiate_request(&req, 0);
    assert!(oack.is_none());
    let mut tx = Sender::new(p, 3, vec![]);
    let packets = tx.fill_window();
    assert_eq!(packets, vec![Packet::Data { block_num: 1, data: vec![] }]);
    // client side: the first reply is that DATA packet
    let client = Client::new(ClientConfig::new(IpAddress::V4(0x7f000001), 69));
    assert_eq!(client.on_read_reply(&packets[0]), Ok(ReadStart::Default));
    let mut rx = Receiver::new(OptionsProtocol::default(), 3);
    assert_eq!(rx.on_packet(&packets[0]), ReceiveAction::Write { ack: Some(1), complete: true });
    assert_eq!(tx.on_packet(&Packet::Ack(1)), SendAction::Complete);
    let (written, _) = run_transfer(vec![], OptionsProtocol::default());
    assert!(written.is_empty());
}

#[test]
fn put_of_512_bytes() {
    let client = Client::new(ClientConfig::new(IpAddress::V4(0x7f000001), 69));
    assert_eq!(client.on_write_reply(&Packet::Ack(0)), Ok(OptionsProtocol::default()));
    let source = vec![0xabu8; 512];
    let mut tx = Sender::new(OptionsProtocol::default(), 3, source.clone());
    let w1 = tx.fill_window();
    assert_eq!(w1, vec![Packet::Data { block_num: 1, data: source.clone() }]);
    assert_eq!(tx.on_ack(1), SendAction::SendWindow);
    let w2 = tx.fill_window();
    assert_eq!(w2, vec![Packet::Data { block_num: 2, data: vec![] }]);
    assert_eq!(tx.on_ack(2), SendAction::Complete);
    let (written, numbers) = run_transfer(source.clone(), OptionsProtocol::default());
    assert_eq!(written, source);
    assert_eq!(numbers, vec![1, 2]);
}

#[test]
fn get_with_window_of_four() {
    let client = Client::new(ClientConfig::new(IpAddress::V4(0x7f000001), 69).with_window_size(4));
    let rrq = client.read_request(&b"big.bin".to_vec());
    let req = classify(&rrq.serialize().unwrap()).unwrap();
    assert_eq!(req.direction, Direction::Read);
    let (p, oack) = negotiate_request(&req, 5000);
    assert_eq!(p.window_size, 4);
    assert_eq!(p.transfer_size, Some(5000));
    let oack = oack.unwrap();
    assert_eq!(
        oack,
        Packet::Oack(vec![
            TransferOption { option: OptionType::BlockSize, value: 512 },
            TransferOption { option: OptionType::WindowSize, value: 4 },
            TransferOption { option: OptionType::Timeout, value: 5 },
            TransferOption { option: OptionType::TransferSize, value: 5000 },
        ])
    );
    let start = client.on_read_reply(&oack).unwrap();
    let cp = match start {
        ReadStart::Negotiated(cp) => cp,
        ReadStart::Default => panic!("expected negotiated options"),
    };
    assert_eq!(cp.window_size, 4);
    assert_eq!(on_oack_reply(&Packet::Ack(0)), OackReply::Confirmed);
    let mut tx = Sender::new(p, 3, vec![1u8; 5000]);
    let window = tx.fill_window();
    assert_eq!(window.len(), 4);
    let mut rx = Receiver::new(cp, 3);
    let acts: Vec<ReceiveAction> = window.iter().map(|pk| rx.on_packet(pk)).collect();
    assert_eq!(acts[0], ReceiveAction::Write { ack: None, complete: false });
    assert_eq!(acts[1], ReceiveAction::Write { ack: None, complete: false });
    assert_eq!(acts[2], ReceiveAction::Write { ack: None, complete: false });
    assert_eq!(acts[3], ReceiveAction::Write { ack: Some(4), complete: false });
    let (written, numbers) = run_transfer(vec![3u8; 5000], p);
    assert_eq!(written.len(), 5000);
    assert_eq!(numbers.len(), 10);
}

#[test]
fn write_to_read_only_server() {
    let config = Config::new(IpAddress::V4(0), 69, "/srv/tftp".to_string(), true);
    let wrq = Packet::Wrq { filename: b"new.bin".to_vec(), mode: b"octet".to_vec(), options: vec![] };
    let req = classify(&wrq.serialize().unwrap()).unwrap();
    assert_eq!(req.direction, Direction::Write);
    let code = check_request(&config, &req, false).unwrap_err();
    let reply = error_packet(code);
    let bytes = reply.serialize().unwrap();
    assert_eq!(&bytes[..4], &[0, 5, 0, 2]);
    assert_eq!(bytes.last(), Some(&0));
    assert!(matches!(reply, Packet::Error { code: 2, .. }));
}

#[test]
fn client_reply_errors() {
    let client = Client::new(ClientConfig::new(IpAddress::V4(1), 69).with_block_size(1024).with_timeout(2));
    assert_eq!(client.config.block_size, 1024);
    assert_eq!(client.config.timeout_secs, 2);
    let e = Packet::Error { code: 1, msg: b"File not found".to_vec() };
    assert_eq!(client.on_read_reply(&e), Err(TransferError::Peer(1)));
    assert_eq!(client.on_write_reply(&e), Err(TransferError::Peer(1)));
    assert_eq!(client.on_read_reply(&Packet::Ack(0)), Err(TransferError::Protocol));
    assert_eq!(client.on_write_reply(&Packet::Ack(5)), Err(TransferError::Protocol));
    let w = client.write_request(&b"f".to_vec(), 99);
    assert_eq!(
        w.serialize().unwrap(),
        b"\x00\x02f\x00octet\x00blksize\x001024\x00windowsize\x001\x00timeout\x002\x00tsize\x0099\x00".to_vec()
    );
    let mut o = vec![TransferOption { option: OptionType::BlockSize, value: 2 }];
    let clamped = OptionsProtocol::parse(&mut o, RequestType::Write);
    assert_eq!(client.on_write_reply(&Packet::Oack(vec![TransferOption { option: OptionType::BlockSize, value: 2 }])), Ok(clamped));
}

#[test]
fn oversized_payload_is_a_protocol_error() {
    let mut rx = Receiver::new(profile(8, 1), 3);
    assert_eq!(rx.on_data(1, 9), ReceiveAction::Fail(TransferError::Protocol));
    assert_eq!(rx.phase, Phase::Failed(TransferError::Protocol));
}

#[test]
fn request_is_resent_until_retry_limit() {
    let client = Client::new(ClientConfig::default());
    let mut retry = RetryCounter::new(2);
    assert_eq!(client.on_request_timeout(&mut retry), Ok(()));
    assert_eq!(client.on_request_timeout(&mut retry), Ok(()));
    assert_eq!(client.on_request_timeout(&mut retry), Err(TransferError::Timeout));
    assert_eq!(retry, RetryCounter { retries: 2, limit: 2 });
}

#[test]
fn upload_reacks_and_timeouts() {
    let oack = Some(Packet::Oack(vec![TransferOption { option: OptionType::BlockSize, value: 1024 }]));
    assert_eq!(upload_ack(0, &oack), oack.clone().unwrap());
    assert_eq!(upload_ack(3, &oack), Packet::Ack(3));
    assert_eq!(upload_ack(0, &None), Packet::Ack(0));
    let local = OptionsPrivate { retry_limit: 6, timeout_secs: 0 };
    let p = OptionsProtocol { block_size: 512, window_size: 1, timeout_secs: 9, transfer_size: None };
    assert_eq!(transfer_timeout_secs(p, true, local), 9);
    assert_eq!(transfer_timeout_secs(p, false, local), 1);
    assert_eq!(transfer_timeout_secs(p, false, OptionsPrivate { retry_limit: 6, timeout_secs: 4 }), 4);
}

#[test]
fn put_with_clamped_oack() {
    let client = Client::new(ClientConfig::default());
    let oack = Packet::Oack(vec![
        TransferOption { option: OptionType::BlockSize, value: 4 },
        TransferOption { option: OptionType::WindowSize, value: 0 },
    ]);
    let p = client.on_write_reply(&oack).unwrap();
    assert_eq!((p.block_size, p.window_size), (8, 1));
    let source: Vec<u8> = (0..20u8).collect();
    let mut tx = Sender::new(p, 3, source.clone());
    let mut sent = Vec::new();
    let mut packets = tx.fill_window();
    loop {
        assert_eq!(packets.len(), 1);
        let (n, d) = data_of(&packets[0]);
        sent.push(d);
        match tx.on_ack(n) {
            SendAction::Complete => break,
            SendAction::SendWindow => packets = tx.fill_window(),
            other => panic!("unexpected {:?}", other),
        }
    }
    assert_eq!(sent.iter().map(|d| d.len()).collect::<Vec<_>>(), vec![8, 8, 4]);
    assert_eq!(sent.concat(), source);
}
