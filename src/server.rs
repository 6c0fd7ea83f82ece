//! Server side: configuration, request intake and policy, negotiation of
//! each accepted transfer, and routing of datagrams on a shared socket.
use vstd::prelude::*;
use crate::options::{acknowledged, negotiate, OptionsPrivate, OptionsProtocol, RequestType};
use crate::packet::{decode, error_code_value, is_text, ErrorCode, Packet, PacketView, TransferOption};
use crate::transfer::TransferError;

verus! {

/// An IP address held as its numeric value.
#[derive(Clone, Copy, Debug, PartialEq, Eq, Structural)]
pub enum IpAddress {
    V4(u32),
    V6(u128),
}

/// The address of a peer: IP address and UDP port.
#[derive(Clone, Copy, Debug, PartialEq, Eq, Structural)]
pub struct PeerAddr {
    pub ip: IpAddress,
    pub port: u16,
}

/// Server configuration.
#[derive(Clone, Debug)]
pub struct Config {
    /// IP address to listen on.
    pub ip_address: IpAddress,
    /// Port to listen on.
    pub port: u16,
    /// Directory that uploaded files are written to.
    pub receive_directory: String,
    /// Directory that downloaded files are read from.
    pub send_directory: String,
    /// Serve every transfer from the listening socket.
    pub single_port: bool,
    /// Refuse every write request.
    pub read_only: bool,
    /// Let a write request replace an existing file.
    pub overwrite: bool,
    /// Retry limit and timeout of the local side.
    pub opt_local: OptionsPrivate,
}

impl Config {
    /// Serves `directory` for reads and writes, in multi-port mode, with
    /// overwriting allowed.
    pub fn new(ip_address: IpAddress, port: u16, directory: String, read_only: bool) -> (r: Config)
        ensures
            r.ip_address == ip_address,
            r.port == port,
            r.receive_directory@ == directory@,
            r.send_directory@ == directory@,
            !r.single_port,
            r.read_only == read_only,
            r.overwrite,
            r.opt_local.retry_limit == crate::options::DEFAULT_RETRY_LIMIT,
            r.opt_local.timeout_secs == crate::options::DEFAULT_TIMEOUT_SECS,
    {
        let receive_directory = directory.clone();
        Config {
            ip_address,
            port,
            receive_directory,
            send_directory: directory,
            single_port: false,
            read_only,
            overwrite: true,
            opt_local: OptionsPrivate::default(),
        }
    }

    pub fn with_single_port(self, single_port: bool) -> (r: Config)
        ensures
            r.single_port == single_port,
            r.ip_address == self.ip_address,
            r.port == self.port,
            r.receive_directory@ == self.receive_directory@,
            r.send_directory@ == self.send_directory@,
            r.read_only == self.read_only,
            r.overwrite == self.overwrite,
            r.opt_local == self.opt_local,
    {
        let mut c = self;
        c.single_port = single_port;
        c
    }
}

/// Why the server cannot start.
#[derive(Clone, Copy, Debug, PartialEq, Eq, Structural)]
pub enum ServerError {
    /// The directory to serve does not exist.
    DirectoryMissing,
}

/// The configuration a server starts with: the directory must exist.
pub fn run(
    ip: IpAddress,
    port: u16,
    path: String,
    path_exists: bool,
    read_only: bool,
    single_port: bool,
) -> (r: Result<Config, ServerError>)
    ensures
        !path_exists ==> r == Err::<Config, ServerError>(ServerError::DirectoryMissing),
        path_exists ==> r is Ok && ({
            let c = r->Ok_0;
            &&& c.ip_address == ip
            &&& c.port == port
            &&& c.receive_directory@ == path@
            &&& c.send_directory@ == path@
            &&& c.read_only == read_only
            &&& c.single_port == single_port
            &&& c.overwrite
        }),
{
    if !path_exists {
        return Err(ServerError::DirectoryMissing);
    }
    Ok(Config::new(ip, port, path, read_only).with_single_port(single_port))
}

/// Direction of a transfer, from the server's side.
#[derive(Clone, Copy, Debug, PartialEq, Eq, Structural)]
pub enum Direction {
    /// The peer reads a file: the server sends.
    Read,
    /// The peer writes a file: the server receives.
    Write,
}

/// A read or write request taken off the listening socket.
#[derive(Clone, Debug)]
pub struct Request {
    pub direction: Direction,
    pub filename: Vec<u8>,
    pub mode: Vec<u8>,
    pub options: Vec<TransferOption>,
}

/// The request a datagram on the listening socket holds; `None` for anything
/// but a well-formed RRQ or WRQ, which the listener drops.
pub open spec fn request_of(b: Seq<u8>) -> Option<(Direction, Seq<u8>, Seq<u8>, Seq<TransferOption>)> {
    match decode(b) {
        Some(PacketView::Rrq { filename, mode, options }) => Some((Direction::Read, filename, mode, options)),
        Some(PacketView::Wrq { filename, mode, options }) => Some((Direction::Write, filename, mode, options)),
        _ => None,
    }
}

/// Decodes a datagram received on the listening socket.
pub fn classify(datagram: &[u8]) -> (r: Option<Request>)
    ensures
        match r {
            Some(q) => request_of(datagram@) == Some((q.direction, q.filename@, q.mode@, q.options@)),
            None => request_of(datagram@) is None,
        },
{
    match Packet::deserialize(datagram) {
        Ok(Packet::Rrq { filename, mode, options }) => Some(
            Request { direction: Direction::Read, filename, mode, options },
        ),
        Ok(Packet::Wrq { filename, mode, options }) => Some(
            Request { direction: Direction::Write, filename, mode, options },
        ),
        _ => None,
    }
}

pub open spec fn is_separator(c: u8) -> bool {
    c == 47 || c == 92  // '/' or '\'
}

/// A `..` component starts at `i`.
pub open spec fn parent_component_at(f: Seq<u8>, i: int) -> bool {
    &&& 0 <= i
    &&& i + 2 <= f.len()
    &&& f[i] == 46 && f[i + 1] == 46
    &&& (i == 0 || is_separator(f[i - 1]))
    &&& (i + 2 == f.len() || is_separator(f[i + 2]))
}

/// A file name that could reach outside the served directory: absolute, or
/// with a `..` component.
pub open spec fn escapes_root(f: Seq<u8>) -> bool {
    (f.len() > 0 && is_separator(f[0])) || exists|i: int| #[trigger] parent_component_at(f, i)
}

pub fn path_escapes_root(f: &Vec<u8>) -> (r: bool)
    ensures
        r == escapes_root(f@),
{
    let n = f.len();
    if n > 0 && (f[0] == 47 || f[0] == 92) {
        return true;
    }
    let mut i: usize = 0;
    while i < n
        invariant
            n == f@.len(),
            forall|j: int| 0 <= j < i ==> !#[trigger] parent_component_at(f@, j),
        decreases n - i,
    {
        if i + 1 < n && f[i] == 46 && f[i + 1] == 46 && (i == 0 || f[i - 1] == 47 || f[i - 1] == 92) && (i + 2
            == n || f[i + 2] == 47 || f[i + 2] == 92) {
            assert(parent_component_at(f@, i as int));
            return true;
        }
        i = i + 1;
    }
    assert forall|j: int| !#[trigger] parent_component_at(f@, j) by {
        if 0 <= j < i {
        }
    }
    false
}

/// The error a request is refused with, or none when it is served.
pub open spec fn request_verdict(
    read_only: bool,
    overwrite: bool,
    direction: Direction,
    filename: Seq<u8>,
    target_exists: bool,
) -> Option<ErrorCode> {
    if escapes_root(filename) {
        Some(ErrorCode::AccessViolation)
    } else {
        match direction {
            Direction::Read => if !target_exists {
                Some(ErrorCode::FileNotFound)
            } else {
                None
            },
            Direction::Write => if read_only {
                Some(ErrorCode::AccessViolation)
            } else if target_exists && !overwrite {
                Some(ErrorCode::FileExists)
            } else {
                None
            },
        }
    }
}

/// Checks a request against the server's policy; `target_exists` tells
/// whether the file it names exists.
pub fn check_request(config: &Config, req: &Request, target_exists: bool) -> (r: Result<(), ErrorCode>)
    ensures
        match request_verdict(config.read_only, config.overwrite, req.direction, req.filename@, target_exists) {
            Some(e) => r == Err::<(), ErrorCode>(e),
            None => r is Ok,
        },
{
    if path_escapes_root(&req.filename) {
        return Err(ErrorCode::AccessViolation);
    }
    match req.direction {
        Direction::Read => if !target_exists {
            Err(ErrorCode::FileNotFound)
        } else {
            Ok(())
        },
        Direction::Write => if config.read_only {
            Err(ErrorCode::AccessViolation)
        } else if target_exists && !config.overwrite {
            Err(ErrorCode::FileExists)
        } else {
            Ok(())
        },
    }
}

/// The ERROR packet that refuses a request with `code`.
pub fn error_packet(code: ErrorCode) -> (r: Packet)
    ensures
        r@ matches PacketView::Error { code: c, msg } && c == error_code_value(code) && is_text(msg)
            && msg.len() > 0,
{
    let msg: Vec<u8> = match code {
        ErrorCode::FileNotFound => vec![70u8, 105, 108, 101, 32, 110, 111, 116, 32, 102, 111, 117, 110, 100],  // File not found
        ErrorCode::AccessViolation => vec![65u8, 99, 99, 101, 115, 115, 32, 118, 105, 111, 108, 97, 116, 105, 111, 110],  // Access violation
        ErrorCode::DiskFull => vec![68u8, 105, 115, 107, 32, 102, 117, 108, 108],  // Disk full
        ErrorCode::IllegalOperation => vec![73u8, 108, 108, 101, 103, 97, 108, 32, 111, 112, 101, 114, 97, 116, 105, 111, 110],  // Illegal operation
        ErrorCode::UnknownId => vec![85u8, 110, 107, 110, 111, 119, 110, 32, 84, 73, 68],  // Unknown TID
        ErrorCode::FileExists => vec![70u8, 105, 108, 101, 32, 101, 120, 105, 115, 116, 115],  // File exists
        ErrorCode::NoSuchUser => vec![78u8, 111, 32, 115, 117, 99, 104, 32, 117, 115, 101, 114],  // No such user
        ErrorCode::RefusedOption => vec![79u8, 112, 116, 105, 111, 110, 32, 114, 101, 102, 117, 115, 101, 100],  // Option refused
        ErrorCode::NotDefined => vec![69u8, 114, 114, 111, 114],  // Error
    };
    Packet::Error { code: code.code(), msg }
}

/// Negotiates an accepted request. For a read the server reports
/// `file_size`. Returns the profile and, when the request carried options,
/// the OACK to send; without options the transfer runs on the defaults and
/// no OACK is sent.
pub fn negotiate_request(req: &Request, file_size: u64) -> (r: (OptionsProtocol, Option<Packet>))
    ensures
        ({
            let rt = match req.direction {
                Direction::Read => RequestType::Read(file_size),
                Direction::Write => RequestType::Write,
            };
            &&& r.0 == negotiate(req.options@, rt)
            &&& r.0.in_range()
            &&& req.options@.len() == 0 ==> r.1 is None
            &&& req.options@.len() > 0 ==> (r.1 matches Some(p) && p@ == PacketView::Oack(
                acknowledged(req.options@, rt),
            ))
        }),
{
    let rt = match req.direction {
        Direction::Read => RequestType::Read(file_size),
        Direction::Write => RequestType::Write,
    };
    let mut opts = copy_options(&req.options);
    let profile = OptionsProtocol::parse(&mut opts, rt);
    if opts.len() == 0 {
        (profile, None)
    } else {
        (profile, Some(Packet::Oack(opts)))
    }
}

pub(crate) fn copy_options(v: &Vec<TransferOption>) -> (r: Vec<TransferOption>)
    ensures
        r@ == v@,
{
    let mut out: Vec<TransferOption> = Vec::new();
    let mut i: usize = 0;
    while i < v.len()
        invariant
            i <= v.len(),
            out@ == v@.subrange(0, i as int),
        decreases v.len() - i,
    {
        out.push(v[i]);
        i = i + 1;
        assert(out@ =~= v@.subrange(0, i as int));
    }
    assert(v@.subrange(0, i as int) =~= v@);
    out
}

/// The packet that acknowledges block `n` of an upload. Block 0 stands for
/// the request itself: it is acknowledged again by the OACK when one was
/// sent, else by `Ack(0)`.
pub fn upload_ack(n: u16, oack: &Option<Packet>) -> (r: Packet)
    ensures
        r@ == (match oack {
            Some(Packet::Oack(o)) => if n == 0 {
                PacketView::Oack(o@)
            } else {
                PacketView::Ack(n)
            },
            _ => PacketView::Ack(n),
        }),
{
    match oack {
        Some(Packet::Oack(o)) => if n == 0 {
            Packet::Oack(copy_options(o))
        } else {
            Packet::Ack(n)
        },
        _ => Packet::Ack(n),
    }
}

/// Seconds to wait for each reply of a transfer: the negotiated timeout when
/// an OACK put one in force, else the server's own, at least one second.
pub fn transfer_timeout_secs(profile: OptionsProtocol, negotiated: bool, local: OptionsPrivate) -> (r: u64)
    ensures
        r == (if negotiated {
            profile.timeout_secs
        } else if local.timeout_secs == 0 {
            1
        } else {
            local.timeout_secs
        }),
{
    if negotiated {
        profile.timeout_secs
    } else if local.timeout_secs == 0 {
        1
    } else {
        local.timeout_secs
    }
}

/// What the server makes of the reply to its OACK on a read.
#[derive(Clone, Copy, Debug, PartialEq, Eq, Structural)]
pub enum OackReply {
    /// `Ack(0)`: the options are confirmed, the first window goes out.
    Confirmed,
    /// The transfer has failed.
    Fail(TransferError),
}

/// A read that was answered with an OACK proceeds on `Ack(0)`; an ERROR ends
/// it; anything else is a protocol error.
pub fn on_oack_reply(p: &Packet) -> (r: OackReply)
    ensures
        r == (match p@ {
            PacketView::Ack(n) => if n == 0 {
                OackReply::Confirmed
            } else {
                OackReply::Fail(TransferError::Protocol)
            },
            PacketView::Error { code, .. } => OackReply::Fail(TransferError::Peer(code)),
            _ => OackReply::Fail(TransferError::Protocol),
        }),
{
    match p {
        Packet::Ack(n) => if *n == 0 {
            OackReply::Confirmed
        } else {
            OackReply::Fail(TransferError::Protocol)
        },
        Packet::Error { code, .. } => OackReply::Fail(TransferError::Peer(*code)),
        _ => OackReply::Fail(TransferError::Protocol),
    }
}

/// On a shared socket: the transfer whose peer sent a datagram, as an index
/// into the peers of the active transfers; `None` when no transfer has that
/// peer.
pub fn route(peers: &Vec<PeerAddr>, from: PeerAddr) -> (r: Option<usize>)
    ensures
        match r {
            Some(i) => i < peers@.len() && peers@[i as int] == from && forall|j: int|
                0 <= j < i ==> #[trigger] peers@[j] != from,
            None => forall|j: int| 0 <= j < peers@.len() ==> #[trigger] peers@[j] != from,
        },
{
    let mut i: usize = 0;
    while i < peers.len()
        invariant
            i <= peers@.len(),
            forall|j: int| 0 <= j < i ==> #[trigger] peers@[j] != from,
        decreases peers.len() - i,
    {
        if peers[i] == from {
            return Some(i);
        }
        i = i + 1;
    }
    None
}

} // verus!
