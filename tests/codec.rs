use xtool::packet::{CodecError, ErrorCode, OptionType, Packet, TransferOption};

fn opt(option: OptionType, value: u64) -> TransferOption {
    TransferOption { option, value }
}

fn round_trip(p: Packet) {
    let bytes = p.serialize().unwrap();
    assert_eq!(Packet::deserialize(&bytes).unwrap(), p);
}

#[test]
fn round_trip_every_variant() {
    let options = vec![
        opt(OptionType::BlockSize, 1428),
        opt(OptionType::WindowSize, 4),
        opt(OptionType::Timeout, 3),
        opt(OptionType::TransferSize, 18446744073709551615),
    ];
    round_trip(Packet::Rrq { filename: b"boot/kernel.img".to_vec(), mode: b"octet".to_vec(), options: options.clone() });
    round_trip(Packet::Wrq { filename: b"up.bin".to_vec(), mode: b"octet".to_vec(), options: vec![] });
    round_trip(Packet::Data { block_num: 65535, data: vec![0, 1, 2, 255] });
    round_trip(Packet::Data { block_num: 1, data: vec![] });
    round_trip(Packet::Ack(0));
    round_trip(Packet::Ack(513));
    round_trip(Packet::Oack(options));
    round_trip(Packet::Oack(vec![]));
    round_trip(Packet::Error { code: 2, msg: b"Access violation".to_vec() });
    round_trip(Packet::Error { code: 0, msg: vec![] });
}

#[test]
fn serialize_exact_bytes() {
    let rrq = Packet::Rrq {
        filename: b"a".to_vec(),
        mode: b"octet".to_vec(),
        options: vec![opt(OptionType::BlockSize, 1024)],
    };
    assert_eq!(rrq.serialize().unwrap(), b"\x00\x01a\x00octet\x00blksize\x001024\x00".to_vec());
    let data = Packet::Data { block_num: 258, data: vec![9, 8] };
    assert_eq!(data.serialize().unwrap(), vec![0, 3, 1, 2, 9, 8]);
    assert_eq!(Packet::Ack(7).serialize().unwrap(), vec![0, 4, 0, 7]);
    let err = Packet::Error { code: 1, msg: b"x".to_vec() };
    assert_eq!(err.serialize().unwrap(), vec![0, 5, 0, 1, b'x', 0]);
    let oack = Packet::Oack(vec![opt(OptionType::WindowSize, 0), opt(OptionType::TransferSize, 90)]);
    assert_eq!(oack.serialize().unwrap(), b"\x00\x06windowsize\x000\x00tsize\x0090\x00".to_vec());
}

#[test]
fn serialize_refuses_nul_in_text() {
    let p = Packet::Wrq { filename: b"a\x00b".to_vec(), mode: b"octet".to_vec(), options: vec![] };
    assert_eq!(p.serialize(), Err(CodecError::Unencodable));
    let e = Packet::Error { code: 0, msg: vec![200] };
    assert_eq!(e.serialize(), Err(CodecError::Unencodable));
}

#[test]
fn deserialize_errors() {
    assert_eq!(Packet::deserialize(&[]), Err(CodecError::Truncated));
    assert_eq!(Packet::deserialize(&[0]), Err(CodecError::Truncated));
    assert_eq!(Packet::deserialize(&[0, 9, 0, 0]), Err(CodecError::UnknownOpcode));
    assert_eq!(Packet::deserialize(&[0, 4, 1]), Err(CodecError::Truncated));
    assert_eq!(Packet::deserialize(b"\x00\x01file"), Err(CodecError::Truncated));
    assert_eq!(Packet::deserialize(b"\x00\x01file\x00octet"), Err(CodecError::Truncated));
    assert_eq!(Packet::deserialize(b"\x00\x01f\xffe\x00octet\x00"), Err(CodecError::InvalidText));
    assert_eq!(Packet::deserialize(b"\x00\x05\x00\x01oops"), Err(CodecError::Truncated));
    assert_eq!(
        Packet::deserialize(b"\x00\x06blksize\x0012x\x00"),
        Err(CodecError::InvalidOptionValue)
    );
    assert_eq!(
        Packet::deserialize(b"\x00\x06tsize\x0018446744073709551616\x00"),
        Err(CodecError::InvalidOptionValue)
    );
    assert_eq!(Packet::deserialize(b"\x00\x06tsize\x00"), Err(CodecError::Truncated));
}

#[test]
fn deserialize_skips_unknown_options() {
    let p = Packet::deserialize(b"\x00\x01f\x00octet\x00multicast\x00\x00blksize\x00008\x00").unwrap();
    assert_eq!(
        p,
        Packet::Rrq {
            filename: b"f".to_vec(),
            mode: b"octet".to_vec(),
            options: vec![opt(OptionType::BlockSize, 8)],
        }
    );
}

#[test]
fn deserialize_data_and_error() {
    assert_eq!(
        Packet::deserialize(&[0, 3, 0xff, 0xff, 1, 2, 3]).unwrap(),
        Packet::Data { block_num: 65535, data: vec![1, 2, 3] }
    );
    assert_eq!(
        Packet::deserialize(b"\x00\x05\x00\x06exists\x00").unwrap(),
        Packet::Error { code: 6, msg: b"exists".to_vec() }
    );
}

#[test]
fn error_codes_on_the_wire() {
    assert_eq!(ErrorCode::NotDefined.code(), 0);
    assert_eq!(ErrorCode::FileNotFound.code(), 1);
    assert_eq!(ErrorCode::AccessViolation.code(), 2);
    assert_eq!(ErrorCode::DiskFull.code(), 3);
    assert_eq!(ErrorCode::IllegalOperation.code(), 4);
    assert_eq!(ErrorCode::UnknownId.code(), 5);
    assert_eq!(ErrorCode::FileExists.code(), 6);
    assert_eq!(ErrorCode::NoSuchUser.code(), 7);
    assert_eq!(ErrorCode::RefusedOption.code(), 8);
}
