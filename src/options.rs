//! Option negotiation: from a requested option list to the profile in force.
use vstd::prelude::*;
use crate::packet::{OptionType, TransferOption};

verus! {

/// Smallest block size that may be negotiated.
pub const MIN_BLOCK_SIZE: u16 = 8;
/// Largest block size that may be negotiated.
pub const MAX_BLOCK_SIZE: u16 = 65464;
/// Block size when none is negotiated.
pub const DEFAULT_BLOCK_SIZE: u16 = 512;
/// Window size when none is negotiated.
pub const DEFAULT_WINDOW_SIZE: u16 = 1;
/// Timeout in seconds when none is negotiated.
pub const DEFAULT_TIMEOUT_SECS: u64 = 5;
/// Shortest timeout a peer may ask for, in seconds.
pub const MIN_TIMEOUT_SECS: u64 = 1;
/// Longest timeout a peer may ask for, in seconds.
pub const MAX_TIMEOUT_SECS: u64 = 255;
/// Consecutive timeouts tolerated before a transfer fails.
pub const DEFAULT_RETRY_LIMIT: u32 = 6;

/// Which side of a transfer negotiates. A reader knows the size of the file
/// it is about to send; a writer takes the size its peer announced.
#[derive(Clone, Copy, Debug, PartialEq, Eq, Structural)]
pub enum RequestType {
    Read(u64),
    Write,
}

/// The profile in force for one transfer once negotiation is over.
#[derive(Clone, Copy, Debug, PartialEq, Eq, Structural)]
pub struct OptionsProtocol {
    pub block_size: u16,
    pub window_size: u16,
    pub timeout_secs: u64,
    pub transfer_size: Option<u64>,
}

/// Settings of the local side that are never negotiated.
#[derive(Clone, Copy, Debug, PartialEq, Eq, Structural)]
pub struct OptionsPrivate {
    pub retry_limit: u32,
    pub timeout_secs: u64,
}

pub open spec fn default_profile() -> OptionsProtocol {
    OptionsProtocol {
        block_size: 512,
        window_size: 1,
        timeout_secs: 5,
        transfer_size: None,
    }
}

pub open spec fn clamp(v: u64, lo: u64, hi: u64) -> u64 {
    if v < lo {
        lo
    } else if v > hi {
        hi
    } else {
        v
    }
}

/// The value that is put in force, and acknowledged, for a requested option.
pub open spec fn accepted_value(o: TransferOption, req: RequestType) -> u64 {
    match o.option {
        OptionType::BlockSize => clamp(o.value, 8, 65464),
        OptionType::WindowSize => clamp(o.value, 1, 65535),
        OptionType::Timeout => clamp(o.value, 1, 255),
        OptionType::TransferSize => match req {
            RequestType::Read(size) => size,
            RequestType::Write => o.value,
        },
    }
}

/// `p` with the requested option `o` put in force.
pub open spec fn apply_option(p: OptionsProtocol, o: TransferOption, req: RequestType) -> OptionsProtocol {
    let v = accepted_value(o, req);
    match o.option {
        OptionType::BlockSize => OptionsProtocol { block_size: v as u16, ..p },
        OptionType::WindowSize => OptionsProtocol { window_size: v as u16, ..p },
        OptionType::Timeout => OptionsProtocol { timeout_secs: v, ..p },
        OptionType::TransferSize => OptionsProtocol { transfer_size: Some(v), ..p },
    }
}

/// The defaults, with each requested option applied in order: the last
/// occurrence of a kind wins.
pub open spec fn negotiate(opts: Seq<TransferOption>, req: RequestType) -> OptionsProtocol
    decreases opts.len(),
{
    if opts.len() == 0 {
        default_profile()
    } else {
        apply_option(negotiate(opts.drop_last(), req), opts.last(), req)
    }
}

/// The options as acknowledged: same kinds and order, values as put in force.
pub open spec fn acknowledged(opts: Seq<TransferOption>, req: RequestType) -> Seq<TransferOption> {
    opts.map_values(|o: TransferOption| TransferOption { option: o.option, value: accepted_value(o, req) })
}

impl OptionsProtocol {
    /// Block and window size lie in the protocol's legal range.
    pub open spec fn in_range(self) -> bool {
        8 <= self.block_size <= 65464 && 1 <= self.window_size && 1 <= self.timeout_secs
    }

    /// Negotiates the profile from the requested options, which are rewritten
    /// in place to the values acknowledged to the peer. Never fails: values
    /// out of range are clamped.
    pub fn parse(options: &mut Vec<TransferOption>, request: RequestType) -> (r: OptionsProtocol)
        ensures
            r == negotiate(old(options)@, request),
            final(options)@ == acknowledged(old(options)@, request),
            r.in_range(),
    {
        let mut p = OptionsProtocol::default();
        let mut i: usize = 0;
        let ghost orig = options@;
        while i < options.len()
            invariant
                options.len() == orig.len(),
                i <= orig.len(),
                p == negotiate(orig.subrange(0, i as int), request),
                p.in_range(),
                forall|j: int| 0 <= j < i ==> #[trigger] options@[j] == acknowledged(orig, request)[j],
                forall|j: int| i <= j < orig.len() ==> #[trigger] options@[j] == orig[j],
            decreases orig.len() - i,
        {
            let o = options[i];
            let v: u64 = match o.option {
                OptionType::BlockSize => clamp_u64(o.value, MIN_BLOCK_SIZE as u64, MAX_BLOCK_SIZE as u64),
                OptionType::WindowSize => clamp_u64(o.value, 1, 65535),
                OptionType::Timeout => clamp_u64(o.value, MIN_TIMEOUT_SECS, MAX_TIMEOUT_SECS),
                OptionType::TransferSize => match request {
                    RequestType::Read(size) => size,
                    RequestType::Write => o.value,
                },
            };
            match o.option {
                OptionType::BlockSize => p.block_size = v as u16,
                OptionType::WindowSize => p.window_size = v as u16,
                OptionType::Timeout => p.timeout_secs = v,
                OptionType::TransferSize => p.transfer_size = Some(v),
            }
            options.set(i, TransferOption { option: o.option, value: v });
            assert(orig.subrange(0, i + 1).drop_last() =~= orig.subrange(0, i as int));
            i = i + 1;
        }
        assert(orig.subrange(0, i as int) =~= orig);
        assert(options@ =~= acknowledged(orig, request));
        p
    }
}

fn clamp_u64(v: u64, lo: u64, hi: u64) -> (r: u64)
    ensures
        r == clamp(v, lo, hi),
{
    if v < lo {
        lo
    } else if v > hi {
        hi
    } else {
        v
    }
}

impl Default for OptionsProtocol {
    /// Block size 512, window size 1, a five-second timeout, no size.
    fn default() -> (r: OptionsProtocol)
        ensures
            r == default_profile(),
    {
        OptionsProtocol {
            block_size: DEFAULT_BLOCK_SIZE,
            window_size: DEFAULT_WINDOW_SIZE,
            timeout_secs: DEFAULT_TIMEOUT_SECS,
            transfer_size: None,
        }
    }
}

impl Default for OptionsPrivate {
    /// Six retries, five seconds each.
    fn default() -> (r: OptionsPrivate)
        ensures
            r.retry_limit == DEFAULT_RETRY_LIMIT,
            r.timeout_secs == DEFAULT_TIMEOUT_SECS,
    {
        OptionsPrivate { retry_limit: DEFAULT_RETRY_LIMIT, timeout_secs: DEFAULT_TIMEOUT_SECS }
    }
}

/// Whatever is requested, and in whatever order, the negotiated block and
/// window size lie in their legal range.
pub proof fn lemma_negotiated_in_range(opts: Seq<TransferOption>, req: RequestType)
    ensures
        negotiate(opts, req).in_range(),
    decreases opts.len(),
{
    if opts.len() > 0 {
        lemma_negotiated_in_range(opts.drop_last(), req);
    }
}

} // verus!
