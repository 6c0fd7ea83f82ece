//! Window buffer: consecutive blocks of a byte source, sent before one ACK.
use vstd::prelude::*;
use vstd::arithmetic::div_mod::lemma_fundamental_div_mod;

verus! {

pub open spec fn min_nat(a: int, b: int) -> int {
    if a <= b {
        a
    } else {
        b
    }
}

/// Block `k` of `src` cut in blocks of `bs` bytes; past the end it is empty.
pub open spec fn block(src: Seq<u8>, bs: nat, k: nat) -> Seq<u8> {
    src.subrange(min_nat((k * bs) as int, src.len() as int), min_nat(((k + 1) * bs) as int, src.len() as int))
}

/// Number of blocks a source of `len` bytes is sent in: the last one is
/// always shorter than `bs`, and empty when `bs` divides `len`.
pub open spec fn block_count(len: nat, bs: nat) -> nat {
    len / bs + 1
}

/// Blocks `from` up to `to` (exclusive).
pub open spec fn blocks(src: Seq<u8>, bs: nat, from: nat, to: nat) -> Seq<Seq<u8>> {
    Seq::new((to - from) as nat, |i: int| block(src, bs, (from + i) as nat))
}

/// `k + 1 < block_count(len, bs)` exactly when block `k` is full.
pub proof fn lemma_block_full(len: nat, bs: nat, k: nat)
    requires
        bs > 0,
    ensures
        (k + 1 < block_count(len, bs)) == ((k + 1) * bs <= len),
        k < block_count(len, bs) ==> k * bs <= len,
{
    lemma_fundamental_div_mod(len as int, bs as int);
    let q = len / bs;
    let r = len % bs;
    assert(0 <= r < bs);
    assert((k + 1 <= q) ==> (k + 1) * bs <= q * bs) by (nonlinear_arith)
        requires bs > 0;
    assert((k + 1 > q) ==> (k + 1) * bs >= (q + 1) * bs) by (nonlinear_arith)
        requires bs > 0;
    assert((k <= q) ==> k * bs <= q * bs) by (nonlinear_arith)
        requires bs > 0;
    assert((q + 1) * bs == q * bs + bs) by (nonlinear_arith);
    assert(q * bs == bs * q) by (nonlinear_arith);
}

/// For a source of `len` bytes and a block size `bs`, the number of blocks is
/// `ceil(len / bs)` when `bs` does not divide `len`, and `len / bs + 1`
/// (an empty last block) when it does; every block but the last is full and
/// the last is shorter than `bs`.
#[verifier::rlimit(30)]
pub proof fn lemma_window_completeness(src: Seq<u8>, bs: nat)
    requires
        bs > 0,
    ensures
        block_count(src.len(), bs) as int == (if src.len() % bs != 0 {
            (src.len() + bs - 1) as int / bs as int
        } else {
            (src.len() / bs + 1) as int
        }),
        forall|k: nat| k + 1 < block_count(src.len(), bs) ==> #[trigger] block(src, bs, k).len() == bs,
        block(src, bs, (block_count(src.len(), bs) - 1) as nat).len() < bs,
{
    let len = src.len();
    let li: int = len as int;
    let bi: int = bs as int;
    let m: int = li + bi - 1;
    lemma_fundamental_div_mod(li, bi);
    lemma_fundamental_div_mod(m, bi);
    let q = len / bs;
    let r = len % bs;
    if r != 0 {
        // len + bs - 1 == q * bs + (r + bs - 1), with bs <= r + bs - 1 < 2 * bs
        assert(m / bi == q + 1) by (nonlinear_arith)
            requires
                li == bi * q + r,
                0 < r < bi,
                m == li + bi - 1,
                m == bi * (m / bi) + m % bi,
                0 <= m % bi < bi,
        ;
    }
    assert forall|k: nat| k + 1 < block_count(len, bs) implies #[trigger] block(src, bs, k).len()
        == bs by {
        lemma_block_full(len, bs, k);
        assert((k + 1) * bs == k * bs + bs) by (nonlinear_arith);
    }
    lemma_block_full(len, bs, q);
    assert((q + 1) * bs == q * bs + bs) by (nonlinear_arith);
    assert(q * bs == bs * q) by (nonlinear_arith);
}

/// Up to `window_size` blocks of `block_size` bytes, read in order from a
/// forward-only source.
pub struct Window {
    window_size: u16,
    block_size: u16,
    source: Vec<u8>,
    next: usize,
    pos: usize,
    end_reached: bool,
    elements: Vec<Vec<u8>>,
}

impl Window {
    pub closed spec fn source_view(&self) -> Seq<u8> {
        self.source@
    }

    pub closed spec fn block_size_view(&self) -> nat {
        self.block_size as nat
    }

    pub closed spec fn window_size_view(&self) -> nat {
        self.window_size as nat
    }

    /// Index of the next block to read from the source.
    pub closed spec fn next_block(&self) -> nat {
        self.next as nat
    }

    /// The buffered blocks, in order.
    pub closed spec fn elements_view(&self) -> Seq<Seq<u8>> {
        self.elements.deep_view()
    }

    /// Every block of the source has been read.
    pub open spec fn exhausted(&self) -> bool {
        self.next_block() == block_count(self.source_view().len(), self.block_size_view())
    }

    pub closed spec fn wf(&self) -> bool {
        &&& self.block_size > 0
        &&& self.window_size > 0
        &&& self.source@.len() < usize::MAX
        &&& self.next <= block_count(self.source@.len(), self.block_size as nat)
        &&& self.pos == min_nat(self.next * self.block_size, self.source@.len() as int)
        &&& self.end_reached == (self.next == block_count(self.source@.len(), self.block_size as nat))
        &&& self.elements@.len() <= self.window_size
        &&& self.elements@.len() <= self.next
        &&& self.elements.deep_view() == blocks(
            self.source@,
            self.block_size as nat,
            (self.next - self.elements@.len()) as nat,
            self.next as nat,
        )
    }

    /// What a well-formed window holds: the buffered blocks are the ones
    /// read last, at most `window_size` of them.
    pub proof fn lemma_wf(&self)
        requires
            self.wf(),
        ensures
            self.block_size_view() > 0,
            0 < self.window_size_view() <= 65535,
            self.elements_view().len() <= self.window_size_view(),
            self.elements_view().len() <= self.next_block(),
            self.next_block() <= block_count(self.source_view().len(), self.block_size_view()),
            self.elements_view() == blocks(
                self.source_view(),
                self.block_size_view(),
                (self.next_block() - self.elements_view().len()) as nat,
                self.next_block(),
            ),
    {
    }

    /// An empty window over `source`.
    pub fn new(window_size: u16, block_size: u16, source: Vec<u8>) -> (r: Window)
        requires
            window_size > 0,
            block_size > 0,
            source@.len() < usize::MAX,
        ensures
            r.wf(),
            r.source_view() == source@,
            r.block_size_view() == block_size,
            r.window_size_view() == window_size,
            r.next_block() == 0,
            r.elements_view() == Seq::<Seq<u8>>::empty(),
    {
        let r = Window {
            window_size,
            block_size,
            source,
            next: 0,
            pos: 0,
            end_reached: false,
            elements: Vec::new(),
        };
        assert(r.elements.deep_view() =~= blocks(r.source@, block_size as nat, 0, 0));
        r
    }

    /// Reads blocks until the window holds `window_size` of them or the
    /// source is exhausted; the read that comes back shorter than a block,
    /// possibly empty, is buffered too. Returns whether the source may hold
    /// more after this fill.
    #[verifier::rlimit(30)]
    pub fn fill(&mut self) -> (more: bool)
        requires
            old(self).wf(),
        ensures
            final(self).wf(),
            final(self).source_view() == old(self).source_view(),
            final(self).block_size_view() == old(self).block_size_view(),
            final(self).window_size_view() == old(self).window_size_view(),
            ({
                let count = block_count(old(self).source_view().len(), old(self).block_size_view());
                let room = old(self).window_size_view() - old(self).elements_view().len();
                let n1 = min_nat(old(self).next_block() + room, count as int) as nat;
                &&& final(self).next_block() == n1
                &&& final(self).elements_view() == old(self).elements_view() + blocks(
                    old(self).source_view(),
                    old(self).block_size_view(),
                    old(self).next_block(),
                    n1,
                )
                &&& more == (n1 < count)
            }),
    {
        let ghost src = self.source@;
        let ghost bs = self.block_size as nat;
        let ghost count = block_count(src.len(), bs);
        let ghost start = self.next as nat;
        let ghost e0 = self.elements.deep_view();
        let ghost n1 = min_nat(start + (self.window_size - self.elements@.len()), count as int) as nat;
        while self.elements.len() < self.window_size as usize && !self.end_reached
            invariant
                self.wf(),
                self.source@ == src,
                self.block_size == bs,
                self.window_size == old(self).window_size,
                count == block_count(src.len(), bs),
                start <= self.next <= n1,
                self.elements@.len() == e0.len() + (self.next - start),
                n1 == min_nat(start + (self.window_size - e0.len()), count as int),
                self.elements.deep_view() == e0 + blocks(src, bs, start, self.next as nat),
            decreases count - self.next,
        {
            let bsz = self.block_size as usize;
            let k = self.next;
            proof {
                lemma_block_full(src.len(), bs, k as nat);
                lemma_fundamental_div_mod(src.len() as int, bs as int);
                assert((k + 1) * bs == k * bs + bs) by (nonlinear_arith);
            }
            let hi: usize = if self.source.len() - self.pos < bsz {
                self.source.len()
            } else {
                self.pos + bsz
            };
            let chunk = slice_to_vec(&self.source, self.pos, hi);
            assert(chunk@ == block(src, bs, k as nat));
            let short = chunk.len() < bsz;
            let ghost before = self.elements.deep_view();
            assert(chunk.deep_view() =~= chunk@);
            self.elements.push(chunk);
            self.next = self.next + 1;
            self.pos = hi;
            if short {
                self.end_reached = true;
            }
            proof {
                assert(self.elements.deep_view() =~= before.push(block(src, bs, k as nat)));
                assert(blocks(src, bs, start, self.next as nat) =~= blocks(src, bs, start, k as nat).push(
                    block(src, bs, k as nat),
                ));
                assert(self.elements.deep_view() =~= e0 + blocks(src, bs, start, self.next as nat));
                let en = self.elements@.len();
                assert(blocks(src, bs, (self.next - en) as nat, self.next as nat) =~= blocks(
                    src,
                    bs,
                    (k - before.len()) as nat,
                    k as nat,
                ).push(block(src, bs, k as nat)));
            }
        }
        !self.end_reached
    }

    /// The buffered blocks, in order, without changing the window.
    pub fn get_elements(&self) -> (r: &Vec<Vec<u8>>)
        ensures
            r.deep_view() == self.elements_view(),
            self.wf() ==> r@.len() <= self.window_size_view(),
    {
        &self.elements
    }

    /// Whether the last block of the source has been read.
    pub fn end_reached(&self) -> (r: bool)
        requires
            self.wf(),
        ensures
            r == self.exhausted(),
    {
        self.end_reached
    }

    /// Discards the buffered blocks, once they are acknowledged.
    pub fn clear(&mut self)
        requires
            old(self).wf(),
        ensures
            final(self).wf(),
            final(self).source_view() == old(self).source_view(),
            final(self).block_size_view() == old(self).block_size_view(),
            final(self).window_size_view() == old(self).window_size_view(),
            final(self).next_block() == old(self).next_block(),
            final(self).elements_view() == Seq::<Seq<u8>>::empty(),
    {
        self.elements = Vec::new();
        assert(self.elements.deep_view() =~= blocks(
            self.source@,
            self.block_size as nat,
            self.next as nat,
            self.next as nat,
        ));
    }
}

pub(crate) fn slice_to_vec(src: &Vec<u8>, from: usize, to: usize) -> (r: Vec<u8>)
    requires
        from <= to <= src.len(),
    ensures
        r@ == src@.subrange(from as int, to as int),
{
    let mut out: Vec<u8> = Vec::new();
    let mut i: usize = from;
    while i < to
        invariant
            from <= i <= to <= src.len(),
            out@ == src@.subrange(from as int, i as int),
        decreases to - i,
    {
        out.push(src[i]);
        i = i + 1;
        assert(out@ =~= src@.subrange(from as int, i as int));
    }
    out
}

} // verus!
