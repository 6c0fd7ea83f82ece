use xtool::options::{OptionsPrivate, OptionsProtocol, RequestType};
use xtool::packet::{OptionType, TransferOption};

fn opt(option: OptionType, value: u64) -> TransferOption {
    TransferOption { option, value }
}

#[test]
fn no_options_gives_defaults() {
    let mut opts = vec![];
    let p = OptionsProtocol::parse(&mut opts, RequestType::Write);
    assert_eq!(p, OptionsProtocol { block_size: 512, window_size: 1, timeout_secs: 5, transfer_size: None });
    assert_eq!(p, OptionsProtocol::default());
    let local = OptionsPrivate::default();
    assert_eq!(local.retry_limit, 6);
    assert_eq!(local.timeout_secs, 5);
}

#[test]
fn out_of_range_values_are_clamped() {
    let mut opts = vec![opt(OptionType::BlockSize, 1), opt(OptionType::WindowSize, 0), opt(OptionType::Timeout, 0)];
    let p = OptionsProtocol::parse(&mut opts, RequestType::Write);
    assert_eq!(p.block_size, 8);
    assert_eq!(p.window_size, 1);
    assert_eq!(p.timeout_secs, 1);
    assert_eq!(opts, vec![opt(OptionType::BlockSize, 8), opt(OptionType::WindowSize, 1), opt(OptionType::Timeout, 1)]);

    let mut big = vec![opt(OptionType::BlockSize, 70000), opt(OptionType::WindowSize, 100000), opt(OptionType::Timeout, 999)];
    let q = OptionsProtocol::parse(&mut big, RequestType::Write);
    assert_eq!(q.block_size, 65464);
    assert_eq!(q.window_size, 65535);
    assert_eq!(q.timeout_secs, 255);
}

#[test]
fn last_occurrence_wins() {
    let mut opts = vec![opt(OptionType::BlockSize, 1024), opt(OptionType::BlockSize, 1428)];
    let p = OptionsProtocol::parse(&mut opts, RequestType::Write);
    assert_eq!(p.block_size, 1428);
}

#[test]
fn transfer_size_depends_on_role() {
    let mut read = vec![opt(OptionType::TransferSize, 0)];
    let p = OptionsProtocol::parse(&mut read, RequestType::Read(4096));
    assert_eq!(p.transfer_size, Some(4096));
    assert_eq!(read, vec![opt(OptionType::TransferSize, 4096)]);
    let mut write = vec![opt(OptionType::TransferSize, 777)];
    let q = OptionsProtocol::parse(&mut write, RequestType::Write);
    assert_eq!(q.transfer_size, Some(777));
}
