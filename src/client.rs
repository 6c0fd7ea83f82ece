//! Client side: the options it asks for and what it makes of the server's
//! first reply. The transfer itself runs on `transfer::{Receiver, Sender}`.
use vstd::prelude::*;
use crate::options::{default_profile, negotiate, OptionsProtocol, RequestType};
use crate::packet::{OptionType, Packet, PacketView, TransferOption};
use crate::server::{copy_options, IpAddress};
use crate::transfer::{retry_step, RetryCounter, TransferError};

verus! {

/// Client configuration.
#[derive(Clone, Debug)]
pub struct ClientConfig {
    pub server_ip: IpAddress,
    pub server_port: u16,
    /// Block size asked for (512 unless set).
    pub block_size: u16,
    /// Timeout in seconds, asked for and used for each read.
    pub timeout_secs: u64,
    /// Window size asked for.
    pub window_size: u16,
    /// Transfer mode; always `octet`.
    pub mode: Vec<u8>,
}

pub open spec fn octet() -> Seq<u8> {
    seq![111u8, 99, 116, 101, 116]
}

impl ClientConfig {
    /// Block size 512, window size 1, a five-second timeout, mode `octet`.
    pub fn new(server_ip: IpAddress, server_port: u16) -> (r: ClientConfig)
        ensures
            r.server_ip == server_ip,
            r.server_port == server_port,
            r.block_size == 512,
            r.timeout_secs == 5,
            r.window_size == 1,
            r.mode@ == octet(),
    {
        let mode: Vec<u8> = vec![111u8, 99, 116, 101, 116];
        assert(mode@ =~= octet());
        ClientConfig { server_ip, server_port, block_size: 512, timeout_secs: 5, window_size: 1, mode }
    }

    pub fn with_block_size(self, block_size: u16) -> (r: ClientConfig)
        ensures
            r.block_size == block_size,
            r.server_ip == self.server_ip,
            r.server_port == self.server_port,
            r.timeout_secs == self.timeout_secs,
            r.window_size == self.window_size,
            r.mode@ == self.mode@,
    {
        let mut c = self;
        c.block_size = block_size;
        c
    }

    pub fn with_timeout(self, timeout_secs: u64) -> (r: ClientConfig)
        ensures
            r.timeout_secs == timeout_secs,
            r.server_ip == self.server_ip,
            r.server_port == self.server_port,
            r.block_size == self.block_size,
            r.window_size == self.window_size,
            r.mode@ == self.mode@,
    {
        let mut c = self;
        c.timeout_secs = timeout_secs;
        c
    }

    pub fn with_window_size(self, window_size: u16) -> (r: ClientConfig)
        ensures
            r.window_size == window_size,
            r.server_ip == self.server_ip,
            r.server_port == self.server_port,
            r.block_size == self.block_size,
            r.timeout_secs == self.timeout_secs,
            r.mode@ == self.mode@,
    {
        let mut c = self;
        c.window_size = window_size;
        c
    }
}

impl Default for ClientConfig {
    /// The server at 127.0.0.1, port 69, with the settings of `new`.
    fn default() -> (r: ClientConfig)
        ensures
            r.server_ip == IpAddress::V4(0x7f000001),
            r.server_port == 69,
            r.block_size == 512,
            r.timeout_secs == 5,
            r.window_size == 1,
            r.mode@ == octet(),
    {
        ClientConfig::new(IpAddress::V4(0x7f000001), 69)
    }
}

/// The options a client asks for: block size, window size, timeout and
/// transfer size, in that order.
pub open spec fn requested_options(c: ClientConfig, transfer_size: u64) -> Seq<TransferOption> {
    seq![
        TransferOption { option: OptionType::BlockSize, value: c.block_size as u64 },
        TransferOption { option: OptionType::WindowSize, value: c.window_size as u64 },
        TransferOption { option: OptionType::Timeout, value: c.timeout_secs },
        TransferOption { option: OptionType::TransferSize, value: transfer_size },
    ]
}

/// A client for one transfer at a time.
#[derive(Clone, Debug)]
pub struct Client {
    pub config: ClientConfig,
}

/// How a read goes on after the server's first reply.
#[derive(Clone, Copy, Debug, PartialEq, Eq, Structural)]
pub enum ReadStart {
    /// The server acknowledged options: the profile they give; send `Ack(0)`
    /// and wait for block 1.
    Negotiated(OptionsProtocol),
    /// The server sent data at once: the defaults hold and the reply is the
    /// first DATA packet.
    Default,
}

/// The client's reading of an OACK: the server's values are taken as given.
pub open spec fn server_profile(opts: Seq<TransferOption>) -> OptionsProtocol {
    negotiate(opts, RequestType::Write)
}

impl Client {
    pub fn new(config: ClientConfig) -> (r: Client)
        ensures
            r.config.server_ip == config.server_ip,
            r.config.server_port == config.server_port,
            r.config.block_size == config.block_size,
            r.config.timeout_secs == config.timeout_secs,
            r.config.window_size == config.window_size,
            r.config.mode@ == config.mode@,
    {
        Client { config }
    }

    fn request_options(&self, transfer_size: u64) -> (r: Vec<TransferOption>)
        ensures
            r@ == requested_options(self.config, transfer_size),
    {
        let r = vec![
            TransferOption { option: OptionType::BlockSize, value: self.config.block_size as u64 },
            TransferOption { option: OptionType::WindowSize, value: self.config.window_size as u64 },
            TransferOption { option: OptionType::Timeout, value: self.config.timeout_secs },
            TransferOption { option: OptionType::TransferSize, value: transfer_size },
        ];
        assert(r@ =~= requested_options(self.config, transfer_size));
        r
    }

    fn copy_bytes(v: &Vec<u8>) -> (r: Vec<u8>)
        ensures
            r@ == v@,
    {
        let mut out: Vec<u8> = Vec::new();
        let mut i: usize = 0;
        while i < v.len()
            invariant
                i <= v.len(),
                out@ == v@.subrange(0, i as int),
            decreases v.len() - i,
        {
            out.push(v[i]);
            i = i + 1;
            assert(out@ =~= v@.subrange(0, i as int));
        }
        assert(v@.subrange(0, i as int) =~= v@);
        out
    }

    /// The RRQ for `remote_file`, asking the server to report the size.
    pub fn read_request(&self, remote_file: &Vec<u8>) -> (r: Packet)
        ensures
            r@ == (PacketView::Rrq {
                filename: remote_file@,
                mode: self.config.mode@,
                options: requested_options(self.config, 0),
            }),
    {
        Packet::Rrq {
            filename: Self::copy_bytes(remote_file),
            mode: Self::copy_bytes(&self.config.mode),
            options: self.request_options(0),
        }
    }

    /// The WRQ for `remote_file`, announcing `file_size` bytes.
    pub fn write_request(&self, remote_file: &Vec<u8>, file_size: u64) -> (r: Packet)
        ensures
            r@ == (PacketView::Wrq {
                filename: remote_file@,
                mode: self.config.mode@,
                options: requested_options(self.config, file_size),
            }),
    {
        Packet::Wrq {
            filename: Self::copy_bytes(remote_file),
            mode: Self::copy_bytes(&self.config.mode),
            options: self.request_options(file_size),
        }
    }

    /// No reply to the RRQ or WRQ within the timeout: the request is sent
    /// again while the retry limit allows; past it the transfer fails.
    pub fn on_request_timeout(&self, retry: &mut RetryCounter) -> (r: Result<(), TransferError>)
        ensures
            match retry_step(*old(retry)) {
                Some(c) => r is Ok && *final(retry) == c,
                None => r == Err::<(), TransferError>(TransferError::Timeout) && *final(retry)
                    == *old(retry),
            },
    {
        if retry.on_timeout() {
            Ok(())
        } else {
            Err(TransferError::Timeout)
        }
    }

    /// The server's first reply to an RRQ.
    pub fn on_read_reply(&self, p: &Packet) -> (r: Result<ReadStart, TransferError>)
        ensures
            r == (match p@ {
                PacketView::Oack(opts) => Ok::<ReadStart, TransferError>(
                    ReadStart::Negotiated(server_profile(opts)),
                ),
                PacketView::Data { .. } => Ok(ReadStart::Default),
                PacketView::Error { code, .. } => Err(TransferError::Peer(code)),
                _ => Err(TransferError::Protocol),
            }),
            r matches Ok(ReadStart::Negotiated(profile)) ==> profile.in_range(),
    {
        match p {
            Packet::Oack(opts) => {
                let mut o = copy_options(opts);
                Ok(ReadStart::Negotiated(OptionsProtocol::parse(&mut o, RequestType::Write)))
            },
            Packet::Data { .. } => Ok(ReadStart::Default),
            Packet::Error { code, .. } => Err(TransferError::Peer(*code)),
            _ => Err(TransferError::Protocol),
        }
    }

    /// The server's first reply to a WRQ: the profile the upload runs on.
    pub fn on_write_reply(&self, p: &Packet) -> (r: Result<OptionsProtocol, TransferError>)
        ensures
            r == (match p@ {
                PacketView::Oack(opts) => Ok::<OptionsProtocol, TransferError>(server_profile(opts)),
                PacketView::Ack(n) => if n == 0 {
                    Ok(default_profile())
                } else {
                    Err(TransferError::Protocol)
                },
                PacketView::Error { code, .. } => Err(TransferError::Peer(code)),
                _ => Err(TransferError::Protocol),
            }),
            r matches Ok(profile) ==> profile.in_range(),
    {
        match p {
            Packet::Oack(opts) => {
                let mut o = copy_options(opts);
                Ok(OptionsProtocol::parse(&mut o, RequestType::Write))
            },
            Packet::Ack(n) => if *n == 0 {
                Ok(OptionsProtocol::default())
            } else {
                Err(TransferError::Protocol)
            },
            Packet::Error { code, .. } => Err(TransferError::Peer(*code)),
            _ => Err(TransferError::Protocol),
        }
    }
}

} // verus!
