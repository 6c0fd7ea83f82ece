//! The decisions of one transfer, on either side: what to do with each
//! packet received and each timeout. The caller performs the I/O.
use vstd::prelude::*;
use vstd::arithmetic::div_mod::lemma_add_mod_noop;
use crate::options::OptionsProtocol;
use crate::packet::{Packet, PacketView};
use crate::window::{block, block_count, min_nat, slice_to_vec, Window};

verus! {

/// Why a transfer failed.
#[derive(Clone, Copy, Debug, PartialEq, Eq, Structural)]
pub enum TransferError {
    /// No reply within the timeout, more times in a row than the retry limit.
    Timeout,
    /// The peer sent an ERROR packet with this code.
    Peer(u16),
    /// The peer sent a packet that has no place in the current state.
    Protocol,
    /// The peer sent a datagram that does not decode.
    Malformed,
}

/// Lifecycle of a transfer once negotiation is over.
#[derive(Clone, Copy, Debug, PartialEq, Eq, Structural)]
pub enum Phase {
    Transferring,
    Completed,
    Failed(TransferError),
}

/// Block number that follows `n`, wrapping after 65535.
pub open spec fn wrap_inc(n: u16) -> u16 {
    ((n + 1) % 65536) as u16
}

/// Block number that precedes `n`, wrapping before 0.
pub open spec fn wrap_dec(n: u16) -> u16 {
    ((n + 65535) % 65536) as u16
}

/// Block number that `k` blocks after `n`.
pub open spec fn wrap_add(n: u16, k: int) -> u16 {
    ((n + k) % 65536) as u16
}

fn next_block_num(n: u16) -> (r: u16)
    ensures
        r == wrap_inc(n),
{
    if n == 65535 {
        0
    } else {
        n + 1
    }
}

fn prev_block_num(n: u16) -> (r: u16)
    ensures
        r == wrap_dec(n),
{
    if n == 0 {
        65535
    } else {
        n - 1
    }
}

// ---------------------------------------------------------------------------
// Retries

/// Consecutive timeouts seen, against the limit that ends the transfer.
#[derive(Clone, Copy, Debug, PartialEq, Eq, Structural)]
pub struct RetryCounter {
    pub retries: u32,
    pub limit: u32,
}

/// One more timeout: `Some` with the new count while the limit allows a
/// retransmission, `None` once it is exceeded.
pub open spec fn retry_step(c: RetryCounter) -> Option<RetryCounter> {
    if c.retries < c.limit {
        Some(RetryCounter { retries: (c.retries + 1) as u32, limit: c.limit })
    } else {
        None
    }
}

/// The counter after `n` timeouts in a row; `None` once one of them failed.
pub open spec fn after_timeouts(c: RetryCounter, n: nat) -> Option<RetryCounter>
    decreases n,
{
    if n == 0 {
        Some(c)
    } else {
        match retry_step(c) {
            Some(c1) => after_timeouts(c1, (n - 1) as nat),
            None => None,
        }
    }
}

impl RetryCounter {
    pub fn new(limit: u32) -> (r: RetryCounter)
        ensures
            r == (RetryCounter { retries: 0, limit }),
    {
        RetryCounter { retries: 0, limit }
    }

    /// Records a timeout; returns whether a retransmission is still allowed.
    pub fn on_timeout(&mut self) -> (retry: bool)
        ensures
            retry == retry_step(*old(self)) is Some,
            retry ==> Some(*final(self)) == retry_step(*old(self)),
            !retry ==> *final(self) == *old(self),
    {
        if self.retries < self.limit {
            self.retries = self.retries + 1;
            true
        } else {
            false
        }
    }

    /// A reply arrived: the count starts over.
    pub fn reset(&mut self)
        ensures
            *final(self) == (RetryCounter { retries: 0, limit: old(self).limit }),
    {
        self.retries = 0;
    }
}

/// From a fresh counter, more consecutive timeouts than the retry limit end
/// the transfer, and no fewer do: a transfer never retries forever.
pub proof fn lemma_retry_bound(limit: u32, n: nat)
    ensures
        (after_timeouts(RetryCounter { retries: 0, limit }, n) is None) == (n > limit),
{
    lemma_retry_bound_from(RetryCounter { retries: 0, limit }, n);
}

proof fn lemma_retry_bound_from(c: RetryCounter, n: nat)
    requires
        c.retries <= c.limit,
    ensures
        (after_timeouts(c, n) is None) == (n > c.limit - c.retries),
    decreases n,
{
    if n > 0 {
        if let Some(c1) = retry_step(c) {
            lemma_retry_bound_from(c1, (n - 1) as nat);
        }
    }
}

// ---------------------------------------------------------------------------
// Receiving side: client GET, server WRQ

/// What the receiving side does with an event.
#[derive(Clone, Copy, Debug, PartialEq, Eq, Structural)]
pub enum ReceiveAction {
    /// Write the payload of the DATA packet; send `Ack(n)` when `ack` is
    /// `Some(n)`; the transfer is complete when `complete` holds.
    Write { ack: Option<u16>, complete: bool },
    /// Write nothing and send `Ack(n)` again, for the last block accepted.
    Reack(u16),
    /// The transfer has failed; nothing is sent.
    Fail(TransferError),
}

/// State of the receiving side.
#[derive(Clone, Copy, Debug, PartialEq, Eq, Structural)]
pub struct Receiver {
    /// Block number accepted next.
    pub expected: u16,
    pub block_size: u16,
    pub window_size: u16,
    /// Blocks accepted since the last ACK sent.
    pub in_window: u16,
    pub retry: RetryCounter,
    pub phase: Phase,
}

impl Receiver {
    pub open spec fn wf(self) -> bool {
        self.window_size >= 1 && self.in_window < self.window_size
    }
}

/// Reaction to DATA block `n` with a payload of `len` bytes: only the next
/// expected block is written; it is acknowledged when it ends the window or
/// the transfer. Any other block writes nothing and repeats the last ACK.
/// A payload longer than the block size is a protocol error.
pub open spec fn receive_data(s: Receiver, n: u16, len: nat) -> (Receiver, ReceiveAction) {
    if len > s.block_size {
        (
            Receiver { phase: Phase::Failed(TransferError::Protocol), ..s },
            ReceiveAction::Fail(TransferError::Protocol),
        )
    } else if n == s.expected {
        let count = s.in_window + 1;
        let last = len < s.block_size;
        let send = last || count == s.window_size;
        (
            Receiver {
                expected: wrap_inc(n),
                in_window: if send { 0 } else { count as u16 },
                retry: RetryCounter { retries: 0, limit: s.retry.limit },
                phase: if last { Phase::Completed } else { Phase::Transferring },
                ..s
            },
            ReceiveAction::Write {
                ack: if send { Some(n) } else { None },
                complete: last,
            },
        )
    } else {
        (Receiver { in_window: 0, ..s }, ReceiveAction::Reack(wrap_dec(s.expected)))
    }
}

/// Reaction to a timeout: repeat the last ACK while retries remain.
pub open spec fn receive_timeout(s: Receiver) -> (Receiver, ReceiveAction) {
    match retry_step(s.retry) {
        Some(c) => (Receiver { retry: c, in_window: 0, ..s }, ReceiveAction::Reack(wrap_dec(s.expected))),
        None => (
            Receiver { phase: Phase::Failed(TransferError::Timeout), ..s },
            ReceiveAction::Fail(TransferError::Timeout),
        ),
    }
}

/// Reaction to a packet: DATA as above; an ERROR ends the transfer without
/// reply; anything else is a protocol error.
pub open spec fn receive_packet(s: Receiver, p: PacketView) -> (Receiver, ReceiveAction) {
    match p {
        PacketView::Data { block_num, data } => receive_data(s, block_num, data.len()),
        PacketView::Error { code, .. } => (
            Receiver { phase: Phase::Failed(TransferError::Peer(code)), ..s },
            ReceiveAction::Fail(TransferError::Peer(code)),
        ),
        _ => (
            Receiver { phase: Phase::Failed(TransferError::Protocol), ..s },
            ReceiveAction::Fail(TransferError::Protocol),
        ),
    }
}

impl Receiver {
    /// Ready for block 1 under the negotiated profile.
    pub fn new(profile: OptionsProtocol, retry_limit: u32) -> (r: Receiver)
        requires
            profile.window_size >= 1,
        ensures
            r.wf(),
            r.expected == 1,
            r.block_size == profile.block_size,
            r.window_size == profile.window_size,
            r.in_window == 0,
            r.retry == (RetryCounter { retries: 0, limit: retry_limit }),
            r.phase == Phase::Transferring,
    {
        Receiver {
            expected: 1,
            block_size: profile.block_size,
            window_size: profile.window_size,
            in_window: 0,
            retry: RetryCounter::new(retry_limit),
            phase: Phase::Transferring,
        }
    }

    pub fn on_data(&mut self, block_num: u16, len: usize) -> (r: ReceiveAction)
        requires
            old(self).wf(),
        ensures
            final(self).wf(),
            (*final(self), r) == receive_data(*old(self), block_num, len as nat),
    {
        if len > self.block_size as usize {
            self.phase = Phase::Failed(TransferError::Protocol);
            ReceiveAction::Fail(TransferError::Protocol)
        } else if block_num == self.expected {
            let count = self.in_window + 1;
            let last = len < self.block_size as usize;
            let send = last || count == self.window_size;
            self.expected = next_block_num(block_num);
            self.in_window = if send { 0 } else { count };
            self.retry.reset();
            if last {
                self.phase = Phase::Completed;
            } else {
                self.phase = Phase::Transferring;
            }
            ReceiveAction::Write { ack: if send { Some(block_num) } else { None }, complete: last }
        } else {
            self.in_window = 0;
            ReceiveAction::Reack(prev_block_num(self.expected))
        }
    }

    pub fn on_timeout(&mut self) -> (r: ReceiveAction)
        requires
            old(self).wf(),
        ensures
            final(self).wf(),
            (*final(self), r) == receive_timeout(*old(self)),
    {
        if self.retry.on_timeout() {
            self.in_window = 0;
            ReceiveAction::Reack(prev_block_num(self.expected))
        } else {
            self.phase = Phase::Failed(TransferError::Timeout);
            ReceiveAction::Fail(TransferError::Timeout)
        }
    }

    pub fn on_packet(&mut self, p: &Packet) -> (r: ReceiveAction)
        requires
            old(self).wf(),
        ensures
            final(self).wf(),
            (*final(self), r) == receive_packet(*old(self), p@),
    {
        match p {
            Packet::Data { block_num, data } => self.on_data(*block_num, data.len()),
            Packet::Error { code, .. } => {
                self.phase = Phase::Failed(TransferError::Peer(*code));
                ReceiveAction::Fail(TransferError::Peer(*code))
            },
            _ => {
                self.phase = Phase::Failed(TransferError::Protocol);
                ReceiveAction::Fail(TransferError::Protocol)
            },
        }
    }
}

/// The receiving side after `n` timeouts in a row.
pub open spec fn receiver_after_timeouts(s: Receiver, n: nat) -> Receiver
    decreases n,
{
    if n == 0 {
        s
    } else {
        receiver_after_timeouts(receive_timeout(s).0, (n - 1) as nat)
    }
}

/// A receiver that meets more consecutive timeouts than its retry limit
/// allows has failed with a timeout, and stays failed whatever further
/// timeouts come.
pub proof fn lemma_receiver_retry_bound(s: Receiver, n: nat)
    requires
        s.retry.retries <= s.retry.limit,
        n > s.retry.limit - s.retry.retries,
    ensures
        receiver_after_timeouts(s, n).phase == Phase::Failed(TransferError::Timeout),
    decreases n,
{
    if s.retry.retries < s.retry.limit {
        lemma_receiver_retry_bound(receive_timeout(s).0, (n - 1) as nat);
    } else {
        lemma_failed_stays_failed(receive_timeout(s).0, (n - 1) as nat);
    }
}

proof fn lemma_failed_stays_failed(s: Receiver, n: nat)
    requires
        s.retry.retries >= s.retry.limit,
        s.phase == Phase::Failed(TransferError::Timeout),
    ensures
        receiver_after_timeouts(s, n).phase == Phase::Failed(TransferError::Timeout),
    decreases n,
{
    if n > 0 {
        lemma_failed_stays_failed(receive_timeout(s).0, (n - 1) as nat);
    }
}

/// A block that was written is never written again: once block `n` is
/// accepted, a repeat of it writes nothing and re-sends the ACK of `n`.
pub proof fn lemma_no_double_write(s: Receiver, n: u16, len: nat, len2: nat)
    requires
        s.wf(),
        receive_data(s, n, len).1 is Write,
        len2 <= s.block_size,
    ensures
        ({
            let s1 = receive_data(s, n, len).0;
            receive_data(s1, n, len2).1 == ReceiveAction::Reack(n)
        }),
{
}

/// Any block other than the expected one writes nothing, leaves the block
/// cursor where it was, and re-sends the ACK of the last block accepted.
pub proof fn lemma_out_of_order_reacks(s: Receiver, n: u16, len: nat)
    requires
        n != s.expected,
        len <= s.block_size,
    ensures
        receive_data(s, n, len).1 == ReceiveAction::Reack(wrap_dec(s.expected)),
        receive_data(s, n, len).0.expected == s.expected,
        receive_data(s, n, len).0.phase == s.phase,
{
}

/// Block numbers wrap: after block 65535 the next block accepted is block 0,
/// which is taken as new data and not as a repeat of an early block.
pub proof fn lemma_wraparound(s: Receiver, len: nat, len2: nat)
    requires
        s.wf(),
        s.expected == 65535,
        len == s.block_size,
        len2 <= s.block_size,
    ensures
        receive_data(s, 65535, len).0.expected == 0,
        receive_data(receive_data(s, 65535, len).0, 0, len2).1 is Write,
{
}

/// Windowed receiving: a full block in order is written and acknowledged
/// only when it is the last of a window of `window_size` blocks; so from a
/// fresh window, blocks 1 to W - 1 of it go unacknowledged and block W gets
/// the one ACK of the window.
pub proof fn lemma_window_ack(s: Receiver)
    requires
        s.wf(),
        s.block_size > 0,
    ensures
        ({
            let (s1, a) = receive_data(s, s.expected, s.block_size as nat);
            &&& a == ReceiveAction::Write {
                ack: if s.in_window + 1 == s.window_size {
                    Some(s.expected)
                } else {
                    None
                },
                complete: false,
            }
            &&& s1.in_window == (s.in_window + 1) % (s.window_size as int)
            &&& s1.expected == wrap_inc(s.expected)
            &&& s1.wf()
        }),
{
    let x: int = s.in_window + 1;
    let w: int = s.window_size as int;
    if x == w {
        assert(x % w == 0) by (nonlinear_arith)
            requires
                x == w,
                w > 0,
        ;
    } else {
        assert(x % w == x) by (nonlinear_arith)
            requires
                0 < x < w,
        ;
    }
}

// ---------------------------------------------------------------------------
// Sending side: client PUT, server RRQ

/// What the sending side does with an event.
#[derive(Clone, Copy, Debug, PartialEq, Eq, Structural)]
pub enum SendAction {
    /// The window was acknowledged: fill the next one and send it.
    SendWindow,
    /// Send the packets of the current window again.
    Resend,
    /// The last window was acknowledged: the transfer is complete.
    Complete,
    /// An acknowledgment outside the current window: wait on.
    Ignore,
    /// The transfer has failed; nothing is sent.
    Fail(TransferError),
}

/// The DATA packets of `count` blocks from block index `first`: block index
/// `k` travels as block number `k + 1`, modulo 65536.
pub open spec fn data_packets(src: Seq<u8>, bs: nat, first: nat, count: nat) -> Seq<PacketView> {
    Seq::new(
        count,
        |i: int|
            PacketView::Data {
                block_num: ((first + i + 1) % 65536) as u16,
                data: block(src, bs, (first + i) as nat),
            },
    )
}

pub open spec fn packet_views(s: Seq<Packet>) -> Seq<PacketView> {
    s.map_values(|p: Packet| p@)
}

/// Distance from block number `base` forward to `n`, modulo 65536.
pub open spec fn ack_offset(n: u16, base: u16) -> int {
    (n as int - base as int + 65536) % 65536
}

/// State of the sending side: the window over the source, the block number
/// of the window's first block, and the retry count.
pub struct Sender {
    window: Window,
    base: u16,
    retry: RetryCounter,
    phase: Phase,
}

impl Sender {
    pub closed spec fn source_view(&self) -> Seq<u8> {
        self.window.source_view()
    }

    pub closed spec fn block_size_view(&self) -> nat {
        self.window.block_size_view()
    }

    /// Blocks in the current window.
    pub closed spec fn window_len(&self) -> nat {
        self.window.elements_view().len()
    }

    /// Index of the first block of the current window.
    pub closed spec fn first_block(&self) -> nat {
        (self.window.next_block() - self.window.elements_view().len()) as nat
    }

    /// Every block of the source has been read into a window.
    pub open spec fn exhausted(&self) -> bool {
        self.first_block() + self.window_len() == self.total_blocks()
    }

    pub closed spec fn window_size_view(&self) -> nat {
        self.window.window_size_view()
    }

    /// Number of blocks the source is sent in.
    pub open spec fn total_blocks(&self) -> nat {
        block_count(self.source_view().len(), self.block_size_view())
    }

    /// An acknowledgment of block number `n` falls in the current window.
    pub open spec fn ack_hits(&self, n: u16) -> bool {
        self.window_len() > 0 && ack_offset(n, self.base_view()) < self.window_len()
    }

    /// How `Ack(n)` takes `old` to `new` with result `r`: a hit clears the
    /// window, moves the cursor past it, resets the retries, and completes
    /// the transfer when the source is exhausted; a miss changes nothing.
    pub open spec fn after_ack(old: &Sender, new: &Sender, n: u16, r: SendAction) -> bool {
        &&& new.source_view() == old.source_view()
        &&& new.block_size_view() == old.block_size_view()
        &&& new.window_size_view() == old.window_size_view()
        &&& if old.ack_hits(n) {
            &&& new.first_block() == old.first_block() + old.window_len()
            &&& new.window_len() == 0
            &&& new.retry_view() == (RetryCounter { retries: 0, limit: old.retry_view().limit })
            &&& r == (if old.exhausted() {
                SendAction::Complete
            } else {
                SendAction::SendWindow
            })
            &&& new.phase_view() == (if old.exhausted() {
                Phase::Completed
            } else {
                old.phase_view()
            })
        } else {
            &&& r == SendAction::Ignore
            &&& new.first_block() == old.first_block()
            &&& new.window_len() == old.window_len()
            &&& new.retry_view() == old.retry_view()
            &&& new.phase_view() == old.phase_view()
        }
    }

    pub closed spec fn retry_view(&self) -> RetryCounter {
        self.retry
    }

    pub closed spec fn phase_view(&self) -> Phase {
        self.phase
    }

    /// Block number of the first block of the current window.
    pub closed spec fn base_view(&self) -> u16 {
        self.base
    }

    pub closed spec fn wf(&self) -> bool {
        &&& self.window.wf()
        &&& self.window.next_block() >= self.window.elements_view().len()
        &&& self.base == ((self.first_block() + 1) % 65536) as u16
    }

    /// What a well-formed sender holds: the window lies within the source's
    /// blocks and holds at most `window_size` of them, and the block number
    /// of its first block is that block's index plus one, modulo 65536.
    pub proof fn lemma_wf(&self)
        requires
            self.wf(),
        ensures
            self.base_view() == ((self.first_block() + 1) % 65536) as u16,
            self.block_size_view() > 0,
            0 < self.window_size_view() <= 65535,
            self.window_len() <= self.window_size_view(),
            self.first_block() + self.window_len() <= self.total_blocks(),
    {
        self.window.lemma_wf();
    }

    /// Ready to send block 1 of `source` under the negotiated profile.
    pub fn new(profile: OptionsProtocol, retry_limit: u32, source: Vec<u8>) -> (r: Sender)
        requires
            profile.in_range(),
            source@.len() < usize::MAX,
        ensures
            r.wf(),
            r.source_view() == source@,
            r.block_size_view() == profile.block_size,
            r.window_size_view() == profile.window_size,
            r.total_blocks() == block_count(source@.len(), profile.block_size as nat),
            r.base_view() == 1,
            r.first_block() == 0,
            r.window_len() == 0,
            r.retry_view() == (RetryCounter { retries: 0, limit: retry_limit }),
            r.phase_view() == Phase::Transferring,
    {
        Sender {
            window: Window::new(profile.window_size, profile.block_size, source),
            base: 1,
            retry: RetryCounter::new(retry_limit),
            phase: Phase::Transferring,
        }
    }

    /// The DATA packets of the current window, in order.
    #[verifier::rlimit(30)]
    pub fn window_packets(&self) -> (r: Vec<Packet>)
        requires
            self.wf(),
        ensures
            packet_views(r@) == data_packets(
                self.source_view(),
                self.block_size_view(),
                self.first_block(),
                self.window_len(),
            ),
    {
        proof {
            self.window.lemma_wf();
        }
        let els = self.window.get_elements();
        let mut out: Vec<Packet> = Vec::new();
        let mut num: u16 = self.base;
        let mut i: usize = 0;
        let ghost want = data_packets(
            self.source_view(),
            self.block_size_view(),
            self.first_block(),
            self.window_len(),
        );
        while i < els.len()
            invariant
                self.wf(),
                els.deep_view() == self.window.elements_view(),
                els@.len() == self.window_len(),
                i <= els@.len(),
                num == ((self.first_block() + i + 1) % 65536) as u16,
                want == data_packets(
                    self.source_view(),
                    self.block_size_view(),
                    self.first_block(),
                    self.window_len(),
                ),
                packet_views(out@) == want.subrange(0, i as int),
            decreases els.len() - i,
        {
            let e = &els[i];
            let data = slice_to_vec(e, 0, e.len());
            proof {
                self.window.lemma_wf();
                assert(e@.subrange(0, e@.len() as int) =~= e@);
                assert(els.deep_view()[i as int] =~= e@);
                assert(e@ == block(self.source_view(), self.block_size_view(), (self.first_block() + i) as nat));
            }
            let ghost prev = out@;
            let ghost pv = PacketView::Data { block_num: num, data: data@ };
            assert(pv == want[i as int]);
            out.push(Packet::Data { block_num: num, data });
            assert(packet_views(out@) =~= packet_views(prev).push(pv));
            num = next_block_num(num);
            i = i + 1;
            proof {
                lemma_add_mod_noop(self.first_block() + i as int, 1, 65536);
            }
            assert(packet_views(out@) =~= want.subrange(0, i as int));
        }
        assert(want.subrange(0, i as int) =~= want);
        out
    }

    /// Fills the window from the source and returns its DATA packets.
    #[verifier::rlimit(30)]
    pub fn fill_window(&mut self) -> (r: Vec<Packet>)
        requires
            old(self).wf(),
        ensures
            final(self).wf(),
            final(self).source_view() == old(self).source_view(),
            final(self).block_size_view() == old(self).block_size_view(),
            final(self).first_block() == old(self).first_block(),
            final(self).retry_view() == old(self).retry_view(),
            final(self).phase_view() == old(self).phase_view(),
            final(self).window_size_view() == old(self).window_size_view(),
            final(self).total_blocks() == old(self).total_blocks(),
            final(self).window_len() == min_nat(
                old(self).window_size_view() as int,
                old(self).total_blocks() - old(self).first_block(),
            ),
            final(self).exhausted() == (final(self).first_block() + final(self).window_len()
                == final(self).total_blocks()),
            packet_views(r@) == data_packets(
                final(self).source_view(),
                final(self).block_size_view(),
                final(self).first_block(),
                final(self).window_len(),
            ),
    {
        proof {
            self.window.lemma_wf();
        }
        self.window.fill();
        proof {
            self.window.lemma_wf();
        }
        self.window_packets()
    }

    /// Reaction to `Ack(n)`: an acknowledgment of any block of the current
    /// window clears it; the transfer is then complete if the source is
    /// exhausted. Any other acknowledgment is ignored.
    #[verifier::rlimit(30)]
    pub fn on_ack(&mut self, n: u16) -> (r: SendAction)
        requires
            old(self).wf(),
        ensures
            final(self).wf(),
            Sender::after_ack(&*old(self), &*final(self), n, r),
    {
        proof {
            self.window.lemma_wf();
        }
        let elen = self.window.get_elements().len();
        let off: u32 = if n >= self.base {
            (n - self.base) as u32
        } else {
            (n as u32 + 65536) - self.base as u32
        };
        if elen > 0 && (off as usize) < elen {
            let ghost first = self.first_block();
            self.window.clear();
            proof {
                self.window.lemma_wf();
                lemma_add_mod_noop(first + 1 as int, elen as int, 65536);
            }
            self.base = ((self.base as u32 + elen as u32) % 65536) as u16;
            assert(self.base == ((first + elen + 1) % 65536) as u16);
            self.retry.reset();
            if self.window.end_reached() {
                self.phase = Phase::Completed;
                SendAction::Complete
            } else {
                SendAction::SendWindow
            }
        } else {
            SendAction::Ignore
        }
    }

    /// Reaction to a timeout: resend the window while retries remain.
    pub fn on_timeout(&mut self) -> (r: SendAction)
        requires
            old(self).wf(),
        ensures
            final(self).wf(),
            final(self).source_view() == old(self).source_view(),
            final(self).block_size_view() == old(self).block_size_view(),
            final(self).window_size_view() == old(self).window_size_view(),
            final(self).first_block() == old(self).first_block(),
            final(self).window_len() == old(self).window_len(),
            match retry_step(old(self).retry_view()) {
                Some(c) => r == SendAction::Resend && final(self).retry_view() == c
                    && final(self).phase_view() == old(self).phase_view(),
                None => r == SendAction::Fail(TransferError::Timeout) && final(self).phase_view()
                    == Phase::Failed(TransferError::Timeout),
            },
    {
        if self.retry.on_timeout() {
            SendAction::Resend
        } else {
            self.phase = Phase::Failed(TransferError::Timeout);
            SendAction::Fail(TransferError::Timeout)
        }
    }

    /// Reaction to a packet: ACK as above; an ERROR ends the transfer without
    /// reply; anything else is a protocol error.
    pub fn on_packet(&mut self, p: &Packet) -> (r: SendAction)
        requires
            old(self).wf(),
        ensures
            final(self).wf(),
            final(self).source_view() == old(self).source_view(),
            final(self).block_size_view() == old(self).block_size_view(),
            final(self).window_size_view() == old(self).window_size_view(),
            match p@ {
                PacketView::Ack(n) => Sender::after_ack(&*old(self), &*final(self), n, r),
                PacketView::Error { code, .. } => r == SendAction::Fail(TransferError::Peer(code))
                    && final(self).phase_view() == Phase::Failed(TransferError::Peer(code))
                    && final(self).first_block() == old(self).first_block()
                    && final(self).window_len() == old(self).window_len(),
                _ => r == SendAction::Fail(TransferError::Protocol) && final(self).phase_view()
                    == Phase::Failed(TransferError::Protocol) && final(self).first_block() == old(
                    self,
                ).first_block() && final(self).window_len() == old(self).window_len(),
            },
    {
        match p {
            Packet::Ack(n) => self.on_ack(*n),
            Packet::Error { code, .. } => {
                self.phase = Phase::Failed(TransferError::Peer(*code));
                SendAction::Fail(TransferError::Peer(*code))
            },
            _ => {
                self.phase = Phase::Failed(TransferError::Protocol);
                SendAction::Fail(TransferError::Protocol)
            },
        }
    }

    pub fn phase(&self) -> (r: Phase)
        ensures
            r == self.phase_view(),
    {
        self.phase
    }
}

} // verus!
