//! Wire codec: the datagram layout of every packet kind.
use vstd::prelude::*;

verus! {

/// Opcode of a read request.
pub const OP_RRQ: u16 = 1;
/// Opcode of a write request.
pub const OP_WRQ: u16 = 2;
/// Opcode of a data block.
pub const OP_DATA: u16 = 3;
/// Opcode of an acknowledgment.
pub const OP_ACK: u16 = 4;
/// Opcode of an error.
pub const OP_ERROR: u16 = 5;
/// Opcode of an option acknowledgment.
pub const OP_OACK: u16 = 6;

/// The option kinds this engine understands.
#[derive(Clone, Copy, Debug, PartialEq, Eq, Structural)]
pub enum OptionType {
    BlockSize,
    WindowSize,
    Timeout,
    TransferSize,
}

/// One requested or acknowledged option.
#[derive(Clone, Copy, Debug, PartialEq, Eq, Structural)]
pub struct TransferOption {
    pub option: OptionType,
    pub value: u64,
}

/// Standard error codes carried by an ERROR packet.
#[derive(Clone, Copy, Debug, PartialEq, Eq, Structural)]
pub enum ErrorCode {
    NotDefined,
    FileNotFound,
    AccessViolation,
    DiskFull,
    IllegalOperation,
    UnknownId,
    FileExists,
    NoSuchUser,
    RefusedOption,
}

pub open spec fn error_code_value(c: ErrorCode) -> u16 {
    match c {
        ErrorCode::NotDefined => 0,
        ErrorCode::FileNotFound => 1,
        ErrorCode::AccessViolation => 2,
        ErrorCode::DiskFull => 3,
        ErrorCode::IllegalOperation => 4,
        ErrorCode::UnknownId => 5,
        ErrorCode::FileExists => 6,
        ErrorCode::NoSuchUser => 7,
        ErrorCode::RefusedOption => 8,
    }
}

impl ErrorCode {
    /// The numeric code that goes on the wire.
    pub fn code(self) -> (r: u16)
        ensures
            r == error_code_value(self),
    {
        match self {
            ErrorCode::NotDefined => 0,
            ErrorCode::FileNotFound => 1,
            ErrorCode::AccessViolation => 2,
            ErrorCode::DiskFull => 3,
            ErrorCode::IllegalOperation => 4,
            ErrorCode::UnknownId => 5,
            ErrorCode::FileExists => 6,
            ErrorCode::NoSuchUser => 7,
            ErrorCode::RefusedOption => 8,
        }
    }
}

/// A packet. Text fields (file name, mode, message) are ASCII bytes without
/// their terminating NUL.
#[derive(Clone, Debug, PartialEq, Eq)]
pub enum Packet {
    Rrq { filename: Vec<u8>, mode: Vec<u8>, options: Vec<TransferOption> },
    Wrq { filename: Vec<u8>, mode: Vec<u8>, options: Vec<TransferOption> },
    Data { block_num: u16, data: Vec<u8> },
    Ack(u16),
    Oack(Vec<TransferOption>),
    Error { code: u16, msg: Vec<u8> },
}

/// Mathematical model of a packet.
pub enum PacketView {
    Rrq { filename: Seq<u8>, mode: Seq<u8>, options: Seq<TransferOption> },
    Wrq { filename: Seq<u8>, mode: Seq<u8>, options: Seq<TransferOption> },
    Data { block_num: u16, data: Seq<u8> },
    Ack(u16),
    Oack(Seq<TransferOption>),
    Error { code: u16, msg: Seq<u8> },
}

impl View for Packet {
    type V = PacketView;

    open spec fn view(&self) -> PacketView {
        match self {
            Packet::Rrq { filename, mode, options } => PacketView::Rrq {
                filename: filename@,
                mode: mode@,
                options: options@,
            },
            Packet::Wrq { filename, mode, options } => PacketView::Wrq {
                filename: filename@,
                mode: mode@,
                options: options@,
            },
            Packet::Data { block_num, data } => PacketView::Data {
                block_num: *block_num,
                data: data@,
            },
            Packet::Ack(n) => PacketView::Ack(*n),
            Packet::Oack(options) => PacketView::Oack(options@),
            Packet::Error { code, msg } => PacketView::Error { code: *code, msg: msg@ },
        }
    }
}

/// Why a datagram could not be decoded.
#[derive(Clone, Copy, Debug, PartialEq, Eq, Structural)]
pub enum CodecError {
    /// The datagram ended before a required field or terminator.
    Truncated,
    /// The opcode is none of the six known ones.
    UnknownOpcode,
    /// A file name, mode or message is not printable text.
    InvalidText,
    /// A recognised option carries a value that is not a decimal number.
    InvalidOptionValue,
    /// A text field holds a NUL byte and cannot be encoded.
    Unencodable,
}

// ---------------------------------------------------------------------------
// Encoding

pub open spec fn be16(n: u16) -> Seq<u8> {
    seq![(n / 256) as u8, (n % 256) as u8]
}

/// A string followed by its NUL terminator.
pub open spec fn cstr(s: Seq<u8>) -> Seq<u8> {
    s.push(0u8)
}

/// Text that may stand in a NUL-terminated field: ASCII, without NUL.
pub open spec fn is_text(s: Seq<u8>) -> bool {
    forall|i: int| 0 <= i < s.len() ==> 0 < #[trigger] s[i] && s[i] < 128
}

pub open spec fn option_name(k: OptionType) -> Seq<u8> {
    match k {
        OptionType::BlockSize => seq![98u8, 108, 107, 115, 105, 122, 101],  // blksize
        OptionType::WindowSize => seq![119u8, 105, 110, 100, 111, 119, 115, 105, 122, 101],  // windowsize
        OptionType::Timeout => seq![116u8, 105, 109, 101, 111, 117, 116],  // timeout
        OptionType::TransferSize => seq![116u8, 115, 105, 122, 101],  // tsize
    }
}

/// Decimal ASCII digits of `v`, without leading zeros.
pub open spec fn decimal(v: nat) -> Seq<u8>
    decreases v,
{
    if v < 10 {
        seq![(48 + v) as u8]
    } else {
        decimal(v / 10).push((48 + v % 10) as u8)
    }
}

pub open spec fn encode_options(opts: Seq<TransferOption>) -> Seq<u8>
    decreases opts.len(),
{
    if opts.len() == 0 {
        Seq::empty()
    } else {
        cstr(option_name(opts[0].option)) + cstr(decimal(opts[0].value as nat))
            + encode_options(opts.drop_first())
    }
}

/// The bytes of a packet on the wire.
pub open spec fn encode(p: PacketView) -> Seq<u8> {
    match p {
        PacketView::Rrq { filename, mode, options } => be16(1) + cstr(filename) + cstr(mode)
            + encode_options(options),
        PacketView::Wrq { filename, mode, options } => be16(2) + cstr(filename) + cstr(mode)
            + encode_options(options),
        PacketView::Data { block_num, data } => be16(3) + be16(block_num) + data,
        PacketView::Ack(n) => be16(4) + be16(n),
        PacketView::Oack(options) => be16(6) + encode_options(options),
        PacketView::Error { code, msg } => be16(5) + be16(code) + cstr(msg),
    }
}

/// A packet whose text fields can be written: each is ASCII without NUL.
pub open spec fn encodable(p: PacketView) -> bool {
    match p {
        PacketView::Rrq { filename, mode, .. } => is_text(filename) && is_text(mode),
        PacketView::Wrq { filename, mode, .. } => is_text(filename) && is_text(mode),
        PacketView::Error { msg, .. } => is_text(msg),
        _ => true,
    }
}

fn push_u16(out: &mut Vec<u8>, n: u16)
    ensures
        final(out)@ == old(out)@ + be16(n),
{
    out.push((n / 256) as u8);
    out.push((n % 256) as u8);
    assert(final(out)@ =~= old(out)@ + be16(n));
}

fn push_bytes(out: &mut Vec<u8>, s: &Vec<u8>)
    ensures
        final(out)@ == old(out)@ + s@,
{
    let mut i: usize = 0;
    while i < s.len()
        invariant
            i <= s.len(),
            out@ == old(out)@ + s@.subrange(0, i as int),
        decreases s.len() - i,
    {
        out.push(s[i]);
        i = i + 1;
        assert(out@ =~= old(out)@ + s@.subrange(0, i as int));
    }
    assert(s@.subrange(0, i as int) =~= s@);
}

fn push_cstr(out: &mut Vec<u8>, s: &Vec<u8>)
    ensures
        final(out)@ == old(out)@ + cstr(s@),
{
    push_bytes(out, s);
    out.push(0u8);
    assert(final(out)@ =~= old(out)@ + cstr(s@));
}

fn push_decimal(out: &mut Vec<u8>, v: u64)
    ensures
        final(out)@ == old(out)@ + decimal(v as nat),
    decreases v,
{
    if v >= 10 {
        push_decimal(out, v / 10);
    }
    out.push((48 + v % 10) as u8);
    assert(final(out)@ =~= old(out)@ + decimal(v as nat));
}

fn push_name(out: &mut Vec<u8>, k: OptionType)
    ensures
        final(out)@ == old(out)@ + cstr(option_name(k)),
{
    let name: Vec<u8> = match k {
        OptionType::BlockSize => vec![98u8, 108, 107, 115, 105, 122, 101],
        OptionType::WindowSize => vec![119u8, 105, 110, 100, 111, 119, 115, 105, 122, 101],
        OptionType::Timeout => vec![116u8, 105, 109, 101, 111, 117, 116],
        OptionType::TransferSize => vec![116u8, 115, 105, 122, 101],
    };
    assert(name@ =~= option_name(k));
    push_cstr(out, &name);
}

fn push_options(out: &mut Vec<u8>, opts: &Vec<TransferOption>)
    ensures
        final(out)@ == old(out)@ + encode_options(opts@),
{
    let mut i: usize = 0;
    assert(opts@.subrange(0, opts.len() as int) =~= opts@);
    while i < opts.len()
        invariant
            i <= opts.len(),
            out@ + encode_options(opts@.subrange(i as int, opts.len() as int)) == old(out)@
                + encode_options(opts@),
        decreases opts.len() - i,
    {
        let ghost before = out@;
        let ghost rest = opts@.subrange(i as int, opts.len() as int);
        assert(rest.drop_first() =~= opts@.subrange(i + 1, opts.len() as int));
        assert(rest[0] == opts@[i as int]);
        let ghost head = cstr(option_name(rest[0].option)) + cstr(decimal(rest[0].value as nat));
        assert(encode_options(rest) == head + encode_options(rest.drop_first()));
        push_name(out, opts[i].option);
        push_decimal(out, opts[i].value);
        out.push(0u8);
        assert(out@ =~= before + head);
        i = i + 1;
        assert(before + encode_options(rest) =~= out@ + encode_options(
            opts@.subrange(i as int, opts.len() as int),
        ));
    }
    assert(encode_options(opts@.subrange(i as int, opts.len() as int)) =~= Seq::empty());
    assert(out@ =~= old(out)@ + encode_options(opts@));
}

fn check_text(s: &Vec<u8>) -> (r: bool)
    ensures
        r == is_text(s@),
{
    let mut i: usize = 0;
    while i < s.len()
        invariant
            i <= s.len(),
            forall|j: int| 0 <= j < i ==> 0 < #[trigger] s@[j] && s@[j] < 128,
        decreases s.len() - i,
    {
        if s[i] == 0 || s[i] >= 128 {
            return false;
        }
        i = i + 1;
    }
    true
}

impl Packet {
    /// Writes the packet as a datagram. Fails only when a text field holds a
    /// NUL byte or a byte outside ASCII.
    pub fn serialize(&self) -> (r: Result<Vec<u8>, CodecError>)
        ensures
            encodable(self@) ==> r == Ok::<Vec<u8>, CodecError>(r->Ok_0) && r->Ok_0@ == encode(
                self@,
            ),
            !encodable(self@) ==> r == Err::<Vec<u8>, CodecError>(CodecError::Unencodable),
    {
        let mut out: Vec<u8> = Vec::new();
        match self {
            Packet::Rrq { filename, mode, options } | Packet::Wrq { filename, mode, options } => {
                if !check_text(filename) || !check_text(mode) {
                    return Err(CodecError::Unencodable);
                }
                let op: u16 = if matches!(self, Packet::Rrq { .. }) { OP_RRQ } else { OP_WRQ };
                push_u16(&mut out, op);
                push_cstr(&mut out, filename);
                push_cstr(&mut out, mode);
                push_options(&mut out, options);
            },
            Packet::Data { block_num, data } => {
                push_u16(&mut out, OP_DATA);
                push_u16(&mut out, *block_num);
                push_bytes(&mut out, data);
            },
            Packet::Ack(n) => {
                push_u16(&mut out, OP_ACK);
                push_u16(&mut out, *n);
            },
            Packet::Oack(options) => {
                push_u16(&mut out, OP_OACK);
                push_options(&mut out, options);
            },
            Packet::Error { code, msg } => {
                if !check_text(msg) {
                    return Err(CodecError::Unencodable);
                }
                push_u16(&mut out, OP_ERROR);
                push_u16(&mut out, *code);
                push_cstr(&mut out, msg);
            },
        }
        assert(out@ =~= encode(self@));
        Ok(out)
    }
}

// ---------------------------------------------------------------------------
// Decoding

/// Index of the first NUL at or after `i`.
pub open spec fn nul_index(b: Seq<u8>, i: int) -> Option<int>
    decreases b.len() - i,
{
    if i < 0 || i >= b.len() {
        None
    } else if b[i] == 0 {
        Some(i)
    } else {
        nul_index(b, i + 1)
    }
}

pub open spec fn is_digits(s: Seq<u8>) -> bool {
    s.len() > 0 && forall|i: int| 0 <= i < s.len() ==> 48 <= #[trigger] s[i] && s[i] <= 57
}

/// Value of a string of decimal digits.
pub open spec fn digits_value(s: Seq<u8>) -> int
    decreases s.len(),
{
    if s.len() == 0 {
        0
    } else {
        digits_value(s.drop_last()) * 10 + (s.last() as int - 48)
    }
}

/// The option kind named by `name`; `None` for a name this engine ignores.
pub open spec fn option_kind(name: Seq<u8>) -> Option<OptionType> {
    if name == option_name(OptionType::BlockSize) {
        Some(OptionType::BlockSize)
    } else if name == option_name(OptionType::WindowSize) {
        Some(OptionType::WindowSize)
    } else if name == option_name(OptionType::Timeout) {
        Some(OptionType::Timeout)
    } else if name == option_name(OptionType::TransferSize) {
        Some(OptionType::TransferSize)
    } else {
        None
    }
}

pub proof fn lemma_nul_index_bounds(b: Seq<u8>, i: int)
    ensures
        nul_index(b, i) matches Some(j) ==> i <= j < b.len() && b[j] == 0,
    decreases b.len() - i,
{
    if 0 <= i < b.len() && b[i] != 0 {
        lemma_nul_index_bounds(b, i + 1);
    }
}

/// The options in `b` from `pos` to the end: pairs of NUL-terminated name and
/// value. Unknown names are skipped; a known name needs a decimal value that
/// fits in 64 bits.
pub open spec fn decode_options(b: Seq<u8>, pos: int) -> Option<Seq<TransferOption>>
    decreases b.len() - pos,
    via decode_options_decreases
{
    if pos < 0 || pos >= b.len() {
        Some(Seq::empty())
    } else {
        match nul_index(b, pos) {
            None => None,
            Some(ne) => match nul_index(b, ne + 1) {
                None => None,
                Some(ve) => match decode_options(b, ve + 1) {
                    None => None,
                    Some(rest) => {
                        let val = b.subrange(ne + 1, ve);
                        match option_kind(b.subrange(pos, ne)) {
                            None => Some(rest),
                            Some(k) => if is_digits(val) && digits_value(val) <= u64::MAX {
                                Some(
                                    seq![TransferOption { option: k, value: digits_value(val) as u64 }]
                                        + rest,
                                )
                            } else {
                                None
                            },
                        }
                    },
                },
            },
        }
    }
}

#[via_fn]
proof fn decode_options_decreases(b: Seq<u8>, pos: int) {
    lemma_nul_index_bounds(b, pos);
    if let Some(ne) = nul_index(b, pos) {
        lemma_nul_index_bounds(b, ne + 1);
    }
}

pub open spec fn be16_value(hi: u8, lo: u8) -> u16 {
    (hi as int * 256 + lo as int) as u16
}

/// File name, mode and options of a request, after its opcode.
pub open spec fn decode_request(b: Seq<u8>) -> Option<(Seq<u8>, Seq<u8>, Seq<TransferOption>)> {
    match nul_index(b, 2) {
        None => None,
        Some(fe) => match nul_index(b, fe + 1) {
            None => None,
            Some(me) => {
                let f = b.subrange(2, fe);
                let m = b.subrange(fe + 1, me);
                if is_text(f) && is_text(m) {
                    match decode_options(b, me + 1) {
                        Some(o) => Some((f, m, o)),
                        None => None,
                    }
                } else {
                    None
                }
            },
        },
    }
}

/// The packet that a datagram holds, if it is well formed.
pub open spec fn decode(b: Seq<u8>) -> Option<PacketView> {
    if b.len() < 2 {
        None
    } else {
        let op = b[0] as int * 256 + b[1] as int;
        if op == 1 || op == 2 {
            match decode_request(b) {
                Some((f, m, o)) => if op == 1 {
                    Some(PacketView::Rrq { filename: f, mode: m, options: o })
                } else {
                    Some(PacketView::Wrq { filename: f, mode: m, options: o })
                },
                None => None,
            }
        } else if op == 3 {
            if b.len() < 4 {
                None
            } else {
                Some(
                    PacketView::Data {
                        block_num: be16_value(b[2], b[3]),
                        data: b.subrange(4, b.len() as int),
                    },
                )
            }
        } else if op == 4 {
            if b.len() < 4 {
                None
            } else {
                Some(PacketView::Ack(be16_value(b[2], b[3])))
            }
        } else if op == 5 {
            if b.len() < 4 {
                None
            } else {
                match nul_index(b, 4) {
                    None => None,
                    Some(e) => if is_text(b.subrange(4, e)) {
                        Some(PacketView::Error { code: be16_value(b[2], b[3]), msg: b.subrange(4, e) })
                    } else {
                        None
                    },
                }
            }
        } else if op == 6 {
            match decode_options(b, 2) {
                Some(o) => Some(PacketView::Oack(o)),
                None => None,
            }
        } else {
            None
        }
    }
}

pub open spec fn as_index(r: Option<usize>) -> Option<int> {
    match r {
        Some(j) => Some(j as int),
        None => None,
    }
}

fn find_nul(b: &[u8], start: usize) -> (r: Option<usize>)
    requires
        start <= b.len(),
    ensures
        as_index(r) == nul_index(b@, start as int),
        r matches Some(j) ==> start <= j < b.len(),
{
    let mut i: usize = start;
    while i < b.len()
        invariant
            start <= i <= b.len(),
            nul_index(b@, start as int) == nul_index(b@, i as int),
        decreases b.len() - i,
    {
        if b[i] == 0 {
            return Some(i);
        }
        i = i + 1;
    }
    None
}

fn copy_range(b: &[u8], from: usize, to: usize) -> (r: Vec<u8>)
    requires
        from <= to <= b.len(),
    ensures
        r@ == b@.subrange(from as int, to as int),
{
    let mut out: Vec<u8> = Vec::new();
    let mut i: usize = from;
    while i < to
        invariant
            from <= i <= to <= b.len(),
            out@ == b@.subrange(from as int, i as int),
        decreases to - i,
    {
        out.push(b[i]);
        i = i + 1;
        assert(out@ =~= b@.subrange(from as int, i as int));
    }
    out
}

proof fn lemma_digits_monotonic(s: Seq<u8>, k: int)
    requires
        0 <= k <= s.len(),
        forall|i: int| 0 <= i < s.len() ==> 48 <= #[trigger] s[i] && s[i] <= 57,
    ensures
        digits_value(s) >= digits_value(s.subrange(0, k)),
        digits_value(s) >= 0,
    decreases s.len(),
{
    if s.len() > 0 {
        let t = s.drop_last();
        if k == s.len() {
            assert(s.subrange(0, k) =~= s);
            lemma_digits_monotonic(t, 0);
        } else {
            assert(t.subrange(0, k) =~= s.subrange(0, k));
            lemma_digits_monotonic(t, k);
        }
    }
}

/// Parses `b[from..to]` as a decimal number that fits in 64 bits.
#[verifier::rlimit(30)]
fn parse_decimal(b: &[u8], from: usize, to: usize) -> (r: Option<u64>)
    requires
        from <= to <= b.len(),
    ensures
        ({
            let s = b@.subrange(from as int, to as int);
            r == (if is_digits(s) && digits_value(s) <= u64::MAX {
                Some(digits_value(s) as u64)
            } else {
                None::<u64>
            })
        }),
{
    let ghost s = b@.subrange(from as int, to as int);
    if from == to {
        return None;
    }
    let mut v: u64 = 0;
    let mut i: usize = from;
    while i < to
        invariant
            from <= i <= to <= b.len(),
            s == b@.subrange(from as int, to as int),
            forall|j: int| from <= j < i ==> 48 <= #[trigger] b@[j] && b@[j] <= 57,
            v as int == digits_value(b@.subrange(from as int, i as int)),
        decreases to - i,
    {
        let ghost prev = b@.subrange(from as int, i as int);
        assert(b@.subrange(from as int, i + 1).drop_last() =~= prev);
        let d = b[i];
        if d < 48 || d > 57 {
            assert(!(48 <= s[i - from] && s[i - from] <= 57));
            return None;
        }
        let dv = (d - 48) as u64;
        if v > (u64::MAX - dv) / 10 {
            proof {
                let next = b@.subrange(from as int, i + 1);
                assert(digits_value(next) > u64::MAX) by (nonlinear_arith)
                    requires
                        digits_value(next) == v as int * 10 + dv as int,
                        v as int > (u64::MAX - dv as int) / 10,
                        0 <= dv <= 9,
                ;
                if is_digits(s) {
                    assert(s.subrange(0, i + 1 - from) =~= next);
                    lemma_digits_monotonic(s, i + 1 - from);
                }
            }
            return None;
        }
        v = v * 10 + dv;
        i = i + 1;
    }
    assert(b@.subrange(from as int, i as int) =~= s);
    Some(v)
}

/// Whether `b[from..to]` equals `lit`.
fn range_equals(b: &[u8], from: usize, to: usize, lit: &[u8]) -> (r: bool)
    requires
        from <= to <= b.len(),
    ensures
        r == (b@.subrange(from as int, to as int) == lit@),
{
    if to - from != lit.len() {
        return false;
    }
    let mut i: usize = 0;
    while i < lit.len()
        invariant
            to - from == lit.len(),
            from <= to <= b.len(),
            forall|j: int| 0 <= j < i ==> b@[from + j] == #[trigger] lit@[j],
        decreases lit.len() - i,
    {
        if b[from + i] != lit[i] {
            assert(b@.subrange(from as int, to as int)[i as int] != lit@[i as int]);
            return false;
        }
        i = i + 1;
    }
    assert(b@.subrange(from as int, to as int) =~= lit@);
    true
}

fn match_kind(b: &[u8], from: usize, to: usize) -> (r: Option<OptionType>)
    requires
        from <= to <= b.len(),
    ensures
        r == option_kind(b@.subrange(from as int, to as int)),
{
    let blksize: [u8; 7] = [98u8, 108, 107, 115, 105, 122, 101];
    let windowsize: [u8; 10] = [119u8, 105, 110, 100, 111, 119, 115, 105, 122, 101];
    let timeout: [u8; 7] = [116u8, 105, 109, 101, 111, 117, 116];
    let tsize: [u8; 5] = [116u8, 115, 105, 122, 101];
    assert(blksize@ =~= option_name(OptionType::BlockSize));
    assert(windowsize@ =~= option_name(OptionType::WindowSize));
    assert(timeout@ =~= option_name(OptionType::Timeout));
    assert(tsize@ =~= option_name(OptionType::TransferSize));
    if range_equals(b, from, to, blksize.as_slice()) {
        Some(OptionType::BlockSize)
    } else if range_equals(b, from, to, windowsize.as_slice()) {
        Some(OptionType::WindowSize)
    } else if range_equals(b, from, to, timeout.as_slice()) {
        Some(OptionType::Timeout)
    } else if range_equals(b, from, to, tsize.as_slice()) {
        Some(OptionType::TransferSize)
    } else {
        None
    }
}

pub open spec fn prepend(a: Seq<TransferOption>, o: Option<Seq<TransferOption>>) -> Option<
    Seq<TransferOption>,
> {
    match o {
        Some(r) => Some(a + r),
        None => None,
    }
}

#[verifier::rlimit(30)]
fn parse_options(b: &[u8], start: usize) -> (r: Result<Vec<TransferOption>, CodecError>)
    requires
        start <= b.len(),
    ensures
        match r {
            Ok(v) => decode_options(b@, start as int) == Some(v@),
            Err(_) => decode_options(b@, start as int) is None,
        },
{
    let mut acc: Vec<TransferOption> = Vec::new();
    let mut pos: usize = start;
    assert(acc@ + Seq::<TransferOption>::empty() =~= Seq::<TransferOption>::empty());
    assert(forall|o: Seq<TransferOption>| #[trigger] (Seq::<TransferOption>::empty() + o) =~= o);
    while pos < b.len()
        invariant
            start <= pos <= b.len(),
            decode_options(b@, start as int) == prepend(acc@, decode_options(b@, pos as int)),
        decreases b.len() - pos,
    {
        let ne = match find_nul(b, pos) {
            Some(j) => j,
            None => return Err(CodecError::Truncated),
        };
        let ve = match find_nul(b, ne + 1) {
            Some(j) => j,
            None => return Err(CodecError::Truncated),
        };
        let ghost old_acc = acc@;
        let ghost rest = decode_options(b@, ve + 1);
        match match_kind(b, pos, ne) {
            None => {},
            Some(k) => {
                match parse_decimal(b, ne + 1, ve) {
                    Some(v) => {
                        let opt = TransferOption { option: k, value: v };
                        acc.push(opt);
                        assert(forall|r: Seq<TransferOption>|
                            #[trigger] (old_acc + (seq![opt] + r)) =~= acc@ + r);
                    },
                    None => return Err(CodecError::InvalidOptionValue),
                }
            },
        }
        pos = ve + 1;
    }
    assert(decode_options(b@, pos as int) == Some(Seq::<TransferOption>::empty()));
    assert(acc@ + Seq::<TransferOption>::empty() =~= acc@);
    Ok(acc)
}

fn check_text_range(b: &[u8], from: usize, to: usize) -> (r: bool)
    requires
        from <= to <= b.len(),
    ensures
        r == is_text(b@.subrange(from as int, to as int)),
{
    let mut i: usize = from;
    while i < to
        invariant
            from <= i <= to <= b.len(),
            forall|j: int| from <= j < i ==> 0 < #[trigger] b@[j] && b@[j] < 128,
        decreases to - i,
    {
        if b[i] == 0 || b[i] >= 128 {
            assert(!(0 < b@.subrange(from as int, to as int)[i - from]
                && b@.subrange(from as int, to as int)[i - from] < 128));
            return false;
        }
        i = i + 1;
    }
    assert(forall|j: int|
        0 <= j < to - from ==> #[trigger] b@.subrange(from as int, to as int)[j] == b@[from + j]);
    true
}

impl Packet {
    /// Reads a datagram. Fails, without panicking, on anything that is not a
    /// well-formed packet.
    #[verifier::rlimit(30)]
    pub fn deserialize(b: &[u8]) -> (r: Result<Packet, CodecError>)
        ensures
            match r {
                Ok(p) => decode(b@) == Some(p@),
                Err(_) => decode(b@) is None,
            },
            b@.len() < 2 ==> r == Err::<Packet, CodecError>(CodecError::Truncated),
            b@.len() >= 2 && !(1 <= b@[0] as int * 256 + b@[1] as int <= 6) ==> r == Err::<
                Packet,
                CodecError,
            >(CodecError::UnknownOpcode),
    {
        if b.len() < 2 {
            return Err(CodecError::Truncated);
        }
        let op: u16 = (b[0] as u16) * 256 + (b[1] as u16);
        if op == OP_RRQ || op == OP_WRQ {
            let fe = match find_nul(b, 2) {
                Some(j) => j,
                None => return Err(CodecError::Truncated),
            };
            let me = match find_nul(b, fe + 1) {
                Some(j) => j,
                None => return Err(CodecError::Truncated),
            };
            if !check_text_range(b, 2, fe) || !check_text_range(b, fe + 1, me) {
                return Err(CodecError::InvalidText);
            }
            let options = parse_options(b, me + 1)?;
            let filename = copy_range(b, 2, fe);
            let mode = copy_range(b, fe + 1, me);
            if op == OP_RRQ {
                Ok(Packet::Rrq { filename, mode, options })
            } else {
                Ok(Packet::Wrq { filename, mode, options })
            }
        } else if op == OP_DATA || op == OP_ACK || op == OP_ERROR {
            if b.len() < 4 {
                return Err(CodecError::Truncated);
            }
            let n: u16 = (b[2] as u16) * 256 + (b[3] as u16);
            if op == OP_DATA {
                Ok(Packet::Data { block_num: n, data: copy_range(b, 4, b.len()) })
            } else if op == OP_ACK {
                Ok(Packet::Ack(n))
            } else {
                let e = match find_nul(b, 4) {
                    Some(j) => j,
                    None => return Err(CodecError::Truncated),
                };
                if !check_text_range(b, 4, e) {
                    return Err(CodecError::InvalidText);
                }
                Ok(Packet::Error { code: n, msg: copy_range(b, 4, e) })
            }
        } else if op == OP_OACK {
            let options = parse_options(b, 2)?;
            Ok(Packet::Oack(options))
        } else {
            Err(CodecError::UnknownOpcode)
        }
    }
}

// ---------------------------------------------------------------------------
// Round trip

pub open spec fn no_nul(t: Seq<u8>) -> bool {
    forall|j: int| 0 <= j < t.len() ==> #[trigger] t[j] != 0
}

proof fn lemma_nul_after(b: Seq<u8>, i: int, t: Seq<u8>)
    requires
        0 <= i,
        i + t.len() < b.len(),
        b.subrange(i, i + t.len()) == t,
        no_nul(t),
        b[i + t.len()] == 0,
    ensures
        nul_index(b, i) == Some(i + t.len()),
    decreases t.len(),
{
    if t.len() > 0 {
        assert(b[i] == b.subrange(i, i + t.len())[0]);
        assert(b.subrange(i + 1, i + 1 + t.drop_first().len()) =~= t.drop_first());
        lemma_nul_after(b, i + 1, t.drop_first());
    }
}

proof fn lemma_decimal(v: nat)
    ensures
        is_digits(decimal(v)),
        digits_value(decimal(v)) == v,
    decreases v,
{
    let d = decimal(v);
    if v >= 10 {
        lemma_decimal(v / 10);
        assert(d.drop_last() =~= decimal(v / 10));
        assert(v == (v / 10) * 10 + v % 10) by (nonlinear_arith);
        assert(d.last() as int - 48 == v % 10);
        assert(digits_value(d) == digits_value(d.drop_last()) * 10 + (d.last() as int - 48));
        assert forall|i: int| 0 <= i < d.len() implies 48 <= #[trigger] d[i] && d[i] <= 57 by {
            if i < d.len() - 1 {
                assert(d[i] == decimal(v / 10)[i]);
            }
        }
    } else {
        assert(d.drop_last() =~= Seq::<u8>::empty());
        assert(d.last() as int - 48 == v);
        assert(digits_value(d) == digits_value(d.drop_last()) * 10 + (d.last() as int - 48));
    }
}

proof fn lemma_option_kind(k: OptionType)
    ensures
        option_kind(option_name(k)) == Some(k),
        no_nul(option_name(k)),
{
    let b = option_name(OptionType::BlockSize);
    let w = option_name(OptionType::WindowSize);
    let t = option_name(OptionType::Timeout);
    let z = option_name(OptionType::TransferSize);
    assert(b[0] != t[0]);
    assert(b.len() != w.len() && b.len() != z.len() && w.len() != t.len() && w.len() != z.len()
        && t.len() != z.len());
}

/// `b[start..]` splits as `x + y`: `b[start..start + |x|] == x` and the rest is `y`.
proof fn lemma_split(b: Seq<u8>, start: int, x: Seq<u8>, y: Seq<u8>)
    requires
        0 <= start <= b.len(),
        b.subrange(start, b.len() as int) == x + y,
    ensures
        b.subrange(start, start + x.len()) == x,
        b.subrange(start + x.len(), b.len() as int) == y,
{
    let s = b.subrange(start, b.len() as int);
    assert(s.len() == x.len() + y.len());
    assert forall|j: int| 0 <= j < x.len() implies #[trigger] b.subrange(start, start + x.len())[j]
        == x[j] by {
        assert(s[j] == (x + y)[j]);
    }
    assert forall|j: int| 0 <= j < y.len() implies #[trigger] b.subrange(
        start + x.len(),
        b.len() as int,
    )[j] == y[j] by {
        assert(s[x.len() + j] == (x + y)[x.len() + j]);
    }
    assert(b.subrange(start, start + x.len()) =~= x);
    assert(b.subrange(start + x.len(), b.len() as int) =~= y);
}

/// A NUL-terminated field at `start`, followed by `rest`.
proof fn lemma_cstr_field(b: Seq<u8>, start: int, t: Seq<u8>, rest: Seq<u8>)
    requires
        0 <= start <= b.len(),
        b.subrange(start, b.len() as int) == cstr(t) + rest,
        no_nul(t),
    ensures
        nul_index(b, start) == Some(start + t.len()),
        b.subrange(start, start + t.len()) == t,
        b.subrange(start + t.len() + 1, b.len() as int) == rest,
{
    assert(cstr(t) + rest =~= t + (seq![0u8] + rest));
    lemma_split(b, start, t, seq![0u8] + rest);
    lemma_split(b, start + t.len(), seq![0u8], rest);
    assert(b[start + t.len()] == b.subrange(start + t.len(), start + t.len() + 1)[0]);
    lemma_nul_after(b, start, t);
}

#[verifier::rlimit(30)]
proof fn lemma_decode_options(b: Seq<u8>, pos: int, o: Seq<TransferOption>)
    requires
        0 <= pos <= b.len(),
        b.subrange(pos, b.len() as int) == encode_options(o),
    ensures
        decode_options(b, pos) == Some(o),
    decreases o.len(),
{
    if o.len() == 0 {
        assert(b.subrange(pos, b.len() as int).len() == 0);
    } else {
        let name = option_name(o[0].option);
        let dec = decimal(o[0].value as nat);
        let tail = encode_options(o.drop_first());
        lemma_option_kind(o[0].option);
        lemma_decimal(o[0].value as nat);
        assert(no_nul(dec));
        assert(encode_options(o) =~= cstr(name) + (cstr(dec) + tail));
        lemma_cstr_field(b, pos, name, cstr(dec) + tail);
        let ne: int = pos + name.len() as int;
        lemma_cstr_field(b, ne + 1, dec, tail);
        let ve: int = ne + 1 + dec.len() as int;
        lemma_decode_options(b, ve + 1, o.drop_first());
        assert(seq![o[0]] + o.drop_first() =~= o);
    }
}

proof fn lemma_be16(n: u16, b: Seq<u8>, start: int)
    requires
        0 <= start,
        start + 2 <= b.len(),
        b.subrange(start, start + 2) == be16(n),
    ensures
        be16_value(b[start], b[start + 1]) == n,
{
    assert(b[start] == b.subrange(start, start + 2)[0]);
    assert(b[start + 1] == b.subrange(start, start + 2)[1]);
}

#[verifier::rlimit(40)]
proof fn lemma_decode_request(op: u16, filename: Seq<u8>, mode: Seq<u8>, options: Seq<TransferOption>)
    requires
        is_text(filename),
        is_text(mode),
    ensures
        ({
            let b = be16(op) + cstr(filename) + cstr(mode) + encode_options(options);
            &&& decode_request(b) == Some((filename, mode, options))
            &&& b[0] == be16(op)[0]
            &&& b[1] == be16(op)[1]
            &&& b.len() >= 2
        }),
{
    let b = be16(op) + cstr(filename) + cstr(mode) + encode_options(options);
    let rest = cstr(filename) + (cstr(mode) + encode_options(options));
    assert(b.subrange(0, b.len() as int) =~= b);
    assert(b =~= be16(op) + rest);
    lemma_split(b, 0, be16(op), rest);
    assert(b[0] == be16(op)[0] && b[1] == be16(op)[1]);
    lemma_cstr_field(b, 2, filename, cstr(mode) + encode_options(options));
    let fe: int = 2 + filename.len() as int;
    lemma_cstr_field(b, fe + 1, mode, encode_options(options));
    let me: int = fe + 1 + mode.len() as int;
    lemma_decode_options(b, me + 1, options);
}

#[verifier::rlimit(40)]
proof fn lemma_round_trip_request(
    p: PacketView,
    op: u16,
    filename: Seq<u8>,
    mode: Seq<u8>,
    options: Seq<TransferOption>,
)
    requires
        op == 1 || op == 2,
        is_text(filename),
        is_text(mode),
        p == (if op == 1 {
            PacketView::Rrq { filename, mode, options }
        } else {
            PacketView::Wrq { filename, mode, options }
        }),
    ensures
        decode(encode(p)) == Some(p),
{
    lemma_decode_request(op, filename, mode, options);
    assert(encode(p) == be16(op) + cstr(filename) + cstr(mode) + encode_options(options));
}

#[verifier::rlimit(30)]
proof fn lemma_round_trip_data(block_num: u16, data: Seq<u8>)
    ensures
        decode(encode(PacketView::Data { block_num, data })) == Some(
            PacketView::Data { block_num, data },
        ),
{
    let b = encode(PacketView::Data { block_num, data });
    assert(b.subrange(0, b.len() as int) =~= b);
    assert(b =~= be16(3) + (be16(block_num) + data));
    lemma_split(b, 0, be16(3), be16(block_num) + data);
    lemma_split(b, 2, be16(block_num), data);
    lemma_be16(block_num, b, 2);
    assert(b[0] == 0 && b[1] == 3);
}

proof fn lemma_round_trip_ack(n: u16)
    ensures
        decode(encode(PacketView::Ack(n))) == Some(PacketView::Ack(n)),
{
    let b = encode(PacketView::Ack(n));
    assert(b[0] == 0 && b[1] == 4);
    assert(b.subrange(2, 4) =~= be16(n));
    lemma_be16(n, b, 2);
}

proof fn lemma_round_trip_oack(options: Seq<TransferOption>)
    ensures
        decode(encode(PacketView::Oack(options))) == Some(PacketView::Oack(options)),
{
    let b = encode(PacketView::Oack(options));
    assert(b.subrange(0, b.len() as int) =~= b);
    lemma_split(b, 0, be16(6), encode_options(options));
    assert(b[0] == 0 && b[1] == 6);
    lemma_decode_options(b, 2, options);
}

#[verifier::rlimit(30)]
proof fn lemma_round_trip_error(code: u16, msg: Seq<u8>)
    requires
        is_text(msg),
    ensures
        decode(encode(PacketView::Error { code, msg })) == Some(PacketView::Error { code, msg }),
{
    let b = encode(PacketView::Error { code, msg });
    assert(b.subrange(0, b.len() as int) =~= b);
    assert(b =~= be16(5) + (be16(code) + cstr(msg)));
    lemma_split(b, 0, be16(5), be16(code) + cstr(msg));
    lemma_split(b, 2, be16(code), cstr(msg));
    lemma_be16(code, b, 2);
    assert(b[0] == 0 && b[1] == 5);
    assert(cstr(msg) =~= cstr(msg) + Seq::<u8>::empty());
    lemma_cstr_field(b, 4, msg, Seq::<u8>::empty());
}

/// Decoding the encoding of a packet gives the packet back, for every packet
/// whose text fields are ASCII without NUL.
pub proof fn lemma_round_trip(p: PacketView)
    requires
        encodable(p),
    ensures
        decode(encode(p)) == Some(p),
{
    match p {
        PacketView::Rrq { filename, mode, options } => lemma_round_trip_request(
            p,
            1,
            filename,
            mode,
            options,
        ),
        PacketView::Wrq { filename, mode, options } => lemma_round_trip_request(
            p,
            2,
            filename,
            mode,
            options,
        ),
        PacketView::Data { block_num, data } => lemma_round_trip_data(block_num, data),
        PacketView::Ack(n) => lemma_round_trip_ack(n),
        PacketView::Oack(options) => lemma_round_trip_oack(options),
        PacketView::Error { code, msg } => lemma_round_trip_error(code, msg),
    }
}

} // verus!
