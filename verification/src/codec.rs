//! The spec codec: an ordered operation sequence to and from a compact,
//! URL-path-safe token.
//!
//! Wire form: each operation is `[tag][len_hi][len_lo][payload]`, operations
//! concatenated; the whole byte string is then written as lowercase hex
//! digits, so the token fits in a URL path segment.  A token that cannot be
//! read back this way decodes to `ServiceError::MalformedSpec`.  Unknown tags
//! are kept (their payload is skipped), so a sequence from a future version
//! still decodes and is later applied as a no-op.

use vstd::prelude::*;
use vstd::string::*;

use crate::error::ServiceError;
use crate::ops::{op_wf, ops_wf, spec_tag_of, Operation, ResizeMode, SampleFilter};

verus! {

// ---------------------------------------------------------------------------
// Byte-level building blocks
// ---------------------------------------------------------------------------

/// Big-endian bytes of a 32-bit value.
pub open spec fn be32(x: u32) -> Seq<u8> {
    seq![
        ((x >> 24) & 0xff) as u8,
        ((x >> 16) & 0xff) as u8,
        ((x >> 8) & 0xff) as u8,
        (x & 0xff) as u8,
    ]
}

/// The 32-bit value read back from four big-endian bytes.
pub open spec fn rd32(b0: u8, b1: u8, b2: u8, b3: u8) -> u32 {
    ((b0 as u32) << 24) | ((b1 as u32) << 16) | ((b2 as u32) << 8) | (b3 as u32)
}

/// Big-endian bytes of a 16-bit value.
pub open spec fn be16(x: u16) -> Seq<u8> {
    seq![((x >> 8) & 0xff) as u8, (x & 0xff) as u8]
}

/// The 16-bit value read back from two big-endian bytes.
pub open spec fn rd16(b0: u8, b1: u8) -> u16 {
    ((b0 as u16) << 8) | (b1 as u16)
}

proof fn lemma_rd_be32(x: u32)
    ensures
        rd32(be32(x)[0], be32(x)[1], be32(x)[2], be32(x)[3]) == x,
{
    assert(((((x >> 24) & 0xff) as u8) as u32) << 24 | ((((x >> 16) & 0xff) as u8) as u32) << 16
        | ((((x >> 8) & 0xff) as u8) as u32) << 8 | (((x & 0xff) as u8) as u32) == x)
        by (bit_vector);
}

proof fn lemma_rd_be16(x: u16)
    ensures
        rd16(be16(x)[0], be16(x)[1]) == x,
{
    assert(((((x >> 8) & 0xff) as u8) as u16) << 8 | (((x & 0xff) as u8) as u16) == x)
        by (bit_vector);
}

proof fn lemma_i16_u16_round(x: i16)
    ensures
        (x as u16) as i16 == x,
{
    assert((x as u16) as i16 == x) by (bit_vector);
}

proof fn lemma_nibbles(x: u8)
    ensures
        (x >> 4) & 0xf < 16,
        x & 0xf < 16,
        (((x >> 4) & 0xf) * 16 + (x & 0xf)) as u8 == x,
{
    assert((x >> 4) & 0xf < 16 && x & 0xf < 16 && (((x >> 4) & 0xf) * 16 + (x & 0xf)) as u8 == x)
        by (bit_vector);
}

// ---------------------------------------------------------------------------
// Serializer (specification)
// ---------------------------------------------------------------------------

/// The wire byte of a resize mode.
pub open spec fn mode_byte(m: ResizeMode) -> u8 {
    match m {
        ResizeMode::Normal => 0,
        ResizeMode::ContentAware => 1,
    }
}

/// The wire byte of a sampling filter.
pub open spec fn sample_byte(f: SampleFilter) -> u8 {
    match f {
        SampleFilter::Undefined => 0,
        SampleFilter::Nearest => 1,
        SampleFilter::Triangle => 2,
        SampleFilter::CatmullRom => 3,
        SampleFilter::Gaussian => 4,
        SampleFilter::Lanczos3 => 5,
    }
}

/// The payload bytes of one operation.
pub open spec fn ser_payload(op: Operation) -> Seq<u8> {
    match op {
        Operation::Crop { x1, y1, x2, y2 } => be32(x1) + be32(y1) + be32(x2) + be32(y2),
        Operation::Contrast { level } => be16(level as u16),
        Operation::FlipH => Seq::empty(),
        Operation::FlipV => Seq::empty(),
        Operation::Filter { kind } => be32(kind),
        Operation::Resize { width, height, mode, sample } => be32(width) + be32(height) + seq![
            mode_byte(mode),
            sample_byte(sample),
        ],
        Operation::Watermark { x, y } => be32(x) + be32(y),
        Operation::Unknown { .. } => Seq::empty(),
    }
}

/// The full wire bytes of one operation: tag, payload length, payload.
pub open spec fn ser_op(op: Operation) -> Seq<u8> {
    seq![
        spec_tag_of(op),
        ((ser_payload(op).len() as int / 256) as u8),
        ((ser_payload(op).len() as int % 256) as u8),
    ] + ser_payload(op)
}

/// The wire bytes of a whole sequence, in order.
pub open spec fn ser_ops(ops: Seq<Operation>) -> Seq<u8>
    decreases ops.len(),
{
    if ops.len() == 0 {
        Seq::empty()
    } else {
        ser_op(ops[0]) + ser_ops(ops.skip(1))
    }
}

proof fn lemma_ser_ops_snoc(ops: Seq<Operation>, op: Operation)
    ensures
        ser_ops(ops + seq![op]) == ser_ops(ops) + ser_op(op),
    decreases ops.len(),
{
    let s = ops + seq![op];
    if ops.len() == 0 {
        assert(s[0] == op);
        assert(s.skip(1) =~= Seq::<Operation>::empty());
        assert(ser_ops(s) == ser_op(op) + ser_ops(Seq::<Operation>::empty()));
        assert(ser_ops(Seq::<Operation>::empty()) == Seq::<u8>::empty());
        assert(ops =~= Seq::<Operation>::empty());
        assert(ser_op(op) + Seq::<u8>::empty() =~= Seq::<u8>::empty() + ser_op(op));
    } else {
        assert(s[0] == ops[0]);
        assert(s.skip(1) =~= ops.skip(1) + seq![op]);
        lemma_ser_ops_snoc(ops.skip(1), op);
        assert(ser_ops(s) == ser_op(s[0]) + ser_ops(s.skip(1)));
        assert(ser_ops(ops) == ser_op(ops[0]) + ser_ops(ops.skip(1)));
        assert(ser_op(ops[0]) + (ser_ops(ops.skip(1)) + ser_op(op)) =~= (ser_op(ops[0]) + ser_ops(
            ops.skip(1),
        )) + ser_op(op));
    }
}

// ---------------------------------------------------------------------------
// Parser (specification)
// ---------------------------------------------------------------------------

/// The resize mode read from a wire byte, if recognized.
pub open spec fn parse_mode(b: u8) -> Option<ResizeMode> {
    if b == 0 {
        Some(ResizeMode::Normal)
    } else if b == 1 {
        Some(ResizeMode::ContentAware)
    } else {
        None
    }
}

/// The sampling filter read from a wire byte, if recognized.
pub open spec fn parse_sample(b: u8) -> Option<SampleFilter> {
    if b == 0 {
        Some(SampleFilter::Undefined)
    } else if b == 1 {
        Some(SampleFilter::Nearest)
    } else if b == 2 {
        Some(SampleFilter::Triangle)
    } else if b == 3 {
        Some(SampleFilter::CatmullRom)
    } else if b == 4 {
        Some(SampleFilter::Gaussian)
    } else if b == 5 {
        Some(SampleFilter::Lanczos3)
    } else {
        None
    }
}

/// The operation read from a tag and its payload; `None` is a malformed
/// payload.  A tag of no known kind parses, whatever its payload: that is the
/// forward-compatibility contract.
pub open spec fn parse_payload(tag: u8, p: Seq<u8>) -> Option<Operation> {
    if tag == 1 {
        if p.len() == 16 {
            Some(
                Operation::Crop {
                    x1: rd32(p[0], p[1], p[2], p[3]),
                    y1: rd32(p[4], p[5], p[6], p[7]),
                    x2: rd32(p[8], p[9], p[10], p[11]),
                    y2: rd32(p[12], p[13], p[14], p[15]),
                },
            )
        } else {
            None
        }
    } else if tag == 2 {
        if p.len() == 2 {
            Some(Operation::Contrast { level: rd16(p[0], p[1]) as i16 })
        } else {
            None
        }
    } else if tag == 3 {
        if p.len() == 0 {
            Some(Operation::FlipH)
        } else {
            None
        }
    } else if tag == 4 {
        if p.len() == 0 {
            Some(Operation::FlipV)
        } else {
            None
        }
    } else if tag == 5 {
        if p.len() == 4 {
            Some(Operation::Filter { kind: rd32(p[0], p[1], p[2], p[3]) })
        } else {
            None
        }
    } else if tag == 6 {
        if p.len() == 10 {
            match (parse_mode(p[8]), parse_sample(p[9])) {
                (Some(mode), Some(sample)) => Some(
                    Operation::Resize {
                        width: rd32(p[0], p[1], p[2], p[3]),
                        height: rd32(p[4], p[5], p[6], p[7]),
                        mode,
                        sample,
                    },
                ),
                _ => None,
            }
        } else {
            None
        }
    } else if tag == 7 {
        if p.len() == 8 {
            Some(
                Operation::Watermark {
                    x: rd32(p[0], p[1], p[2], p[3]),
                    y: rd32(p[4], p[5], p[6], p[7]),
                },
            )
        } else {
            None
        }
    } else {
        Some(Operation::Unknown { tag })
    }
}

/// The sequence read from wire bytes; `None` is a malformed byte string
/// (truncated frame or payload, or a payload that does not parse).
pub open spec fn parse_ops(b: Seq<u8>) -> Option<Seq<Operation>>
    decreases b.len(),
{
    if b.len() == 0 {
        Some(Seq::empty())
    } else if b.len() < 3 {
        None
    } else {
        let len = (b[1] as int) * 256 + (b[2] as int);
        if b.len() < 3 + len {
            None
        } else {
            match parse_payload(b[0], b.subrange(3, 3 + len)) {
                Option::None => None,
                Option::Some(op) => match parse_ops(b.skip(3 + len)) {
                    Option::None => None,
                    Option::Some(rest) => Some(seq![op] + rest),
                },
            }
        }
    }
}

// ---------------------------------------------------------------------------
// Hex layer
// ---------------------------------------------------------------------------

/// The lowercase hex digit of a nibble.
pub open spec fn hex_digit(n: u8) -> u8 {
    if n < 10 {
        (48 + n) as u8  // '0'..'9'
    } else {
        (87 + n) as u8  // 'a'..'f'
    }
}

/// The hex text of a byte string: two digits per byte, high nibble first.
pub open spec fn hex_of(b: Seq<u8>) -> Seq<u8> {
    Seq::new(
        2 * b.len(),
        |i: int|
            if i % 2 == 0 {
                hex_digit((b[i / 2] >> 4) & 0xf)
            } else {
                hex_digit(b[i / 2] & 0xf)
            },
    )
}

/// The nibble of one hex digit; both cases are read, `None` is no digit.
pub open spec fn unhex_digit(c: u8) -> Option<u8> {
    if 48 <= c <= 57 {
        Some((c - 48) as u8)
    } else if 97 <= c <= 102 {
        Some((c - 87) as u8)
    } else if 65 <= c <= 70 {
        Some((c - 55) as u8)
    } else {
        None
    }
}

/// The byte string read back from hex text, if it is one.
pub open spec fn unhex(s: Seq<u8>) -> Option<Seq<u8>> {
    if s.len() % 2 == 0 && (forall|i: int| 0 <= i < s.len() ==> #[trigger] unhex_digit(s[i]).is_some()) {
        Some(
            Seq::new(
                s.len() / 2,
                |i: int| (unhex_digit(s[2 * i]).unwrap() * 16 + unhex_digit(s[2 * i + 1]).unwrap()) as u8,
            ),
        )
    } else {
        None
    }
}

proof fn lemma_unhex_digit_hex(n: u8)
    requires
        n < 16,
    ensures
        unhex_digit(hex_digit(n)) == Some(n),
        48 <= hex_digit(n) <= 102,
{
}

proof fn lemma_unhex_hex(b: Seq<u8>)
    ensures
        unhex(hex_of(b)) == Some(b),
{
    let h = hex_of(b);
    assert forall|i: int| 0 <= i < h.len() implies #[trigger] unhex_digit(h[i]).is_some() by {
        lemma_nibbles(b[i / 2]);
        lemma_unhex_digit_hex((b[i / 2] >> 4) & 0xf);
        lemma_unhex_digit_hex(b[i / 2] & 0xf);
    }
    let u = unhex(h).unwrap();
    assert forall|i: int| 0 <= i < b.len() implies u[i] == b[i] by {
        let x = b[i];
        lemma_nibbles(x);
        lemma_unhex_digit_hex((x >> 4) & 0xf);
        lemma_unhex_digit_hex(x & 0xf);
        assert((2 * i) / 2 == i && (2 * i + 1) / 2 == i && (2 * i) % 2 == 0 && (2 * i + 1) % 2 == 1);
    }
    assert(u =~= b);
}

// ---------------------------------------------------------------------------
// The decoded form of a token, and the round trip
// ---------------------------------------------------------------------------

/// What a token's bytes decode to: hex text read back, then parsed.
pub open spec fn spec_decode(t: Seq<u8>) -> Option<Seq<Operation>> {
    match unhex(t) {
        Option::None => None,
        Option::Some(b) => parse_ops(b),
    }
}

/// The token bytes that encode a sequence.
pub open spec fn spec_encode(ops: Seq<Operation>) -> Seq<u8> {
    hex_of(ser_ops(ops))
}

proof fn lemma_parse_payload_ser(op: Operation)
    requires
        op_wf(op),
    ensures
        ser_payload(op).len() < 256,
        parse_payload(spec_tag_of(op), ser_payload(op)) == Some(op),
{
    match op {
        Operation::Crop { x1, y1, x2, y2 } => {
            lemma_rd_be32(x1);
            lemma_rd_be32(y1);
            lemma_rd_be32(x2);
            lemma_rd_be32(y2);
            let p = ser_payload(op);
            assert(p.subrange(0, 4) =~= be32(x1));
            assert(p.subrange(4, 8) =~= be32(y1));
            assert(p.subrange(8, 12) =~= be32(x2));
            assert(p.subrange(12, 16) =~= be32(y2));
        },
        Operation::Contrast { level } => {
            lemma_rd_be16(level as u16);
            lemma_i16_u16_round(level);
        },
        Operation::Filter { kind } => {
            lemma_rd_be32(kind);
        },
        Operation::Resize { width, height, mode, sample } => {
            lemma_rd_be32(width);
            lemma_rd_be32(height);
            let p = ser_payload(op);
            assert(p.subrange(0, 4) =~= be32(width));
            assert(p.subrange(4, 8) =~= be32(height));
            assert(p[8] == mode_byte(mode) && p[9] == sample_byte(sample));
        },
        Operation::Watermark { x, y } => {
            lemma_rd_be32(x);
            lemma_rd_be32(y);
            let p = ser_payload(op);
            assert(p.subrange(0, 4) =~= be32(x));
            assert(p.subrange(4, 8) =~= be32(y));
        },
        _ => {},
    }
}

proof fn lemma_parse_ser_ops(ops: Seq<Operation>)
    requires
        ops_wf(ops),
    ensures
        parse_ops(ser_ops(ops)) == Some(ops),
    decreases ops.len(),
{
    if ops.len() == 0 {
        assert(parse_ops(ser_ops(ops)) == Some(Seq::<Operation>::empty()));
        assert(ops =~= Seq::<Operation>::empty());
    } else {
        let op = ops[0];
        assert(op_wf(op));
        lemma_parse_payload_ser(op);
        let w = ser_ops(ops);
        let head = ser_op(op);
        let plen = ser_payload(op).len() as int;
        assert(w =~= head + ser_ops(ops.skip(1)));
        assert(w[0] == spec_tag_of(op));
        assert(w[1] == (plen / 256) as u8 && w[2] == (plen % 256) as u8);
        assert((w[1] as int) * 256 + (w[2] as int) == plen);
        assert(w.len() >= 3 + plen);
        assert(w.subrange(3, 3 + plen) =~= ser_payload(op));
        assert(w.skip(3 + plen) =~= ser_ops(ops.skip(1)));
        assert(forall|i: int| 0 <= i < ops.skip(1).len() ==> #[trigger] op_wf(ops.skip(1)[i]));
        lemma_parse_ser_ops(ops.skip(1));
        assert(parse_ops(w) == Some(seq![op] + ops.skip(1)));
        assert(seq![op] + ops.skip(1) =~= ops);
    }
}

/// Law: the codec round-trips.  For every well-formed operation sequence,
/// decoding the encoded token yields exactly that sequence: same variants,
/// same field values, same order.
pub proof fn lemma_round_trip(ops: Seq<Operation>)
    requires
        ops_wf(ops),
    ensures
        spec_decode(spec_encode(ops)) == Some(ops),
{
    lemma_unhex_hex(ser_ops(ops));
    lemma_parse_ser_ops(ops);
}

/// Law: the round trip holds of the token string itself.  The chars of an
/// encoded token are ASCII, their UTF-8 bytes are exactly the token bytes,
/// and those decode back to the original sequence.
pub proof fn lemma_token_round_trip(ops: Seq<Operation>)
    requires
        ops_wf(ops),
    ensures
        spec_decode(vstd::utf8::encode_utf8(token_chars(ops))) == Some(ops),
{
    let bytes = spec_encode(ops);
    let chars = token_chars(ops);
    assert forall|i: int| 0 <= i < bytes.len() implies bytes[i] < 128 by {
        let w = ser_ops(ops);
        lemma_nibbles(w[i / 2]);
        lemma_unhex_digit_hex((w[i / 2] >> 4) & 0xf);
        lemma_unhex_digit_hex(w[i / 2] & 0xf);
    }
    assert forall|i: int| 0 <= i < chars.len() implies '\0' <= #[trigger] chars[i]
        <= '\u{7f}' by {
        assert(chars[i] == bytes[i] as char);
    }
    assert(vstd::utf8::is_ascii_chars(chars));
    vstd::utf8::is_ascii_chars_encode_utf8(chars);
    let enc = vstd::utf8::encode_utf8(chars);
    assert forall|i: int| 0 <= i < bytes.len() implies enc[i] == bytes[i] by {
        assert(chars[i] as u8 == enc[i]);
        assert(chars[i] == bytes[i] as char);
    }
    assert(enc =~= bytes);
    lemma_round_trip(ops);
}

// ---------------------------------------------------------------------------
// Executable encoder
// ---------------------------------------------------------------------------

fn push_be32(out: &mut Vec<u8>, x: u32)
    ensures
        final(out)@ == old(out)@ + be32(x),
{
    out.push(((x >> 24) & 0xff) as u8);
    out.push(((x >> 16) & 0xff) as u8);
    out.push(((x >> 8) & 0xff) as u8);
    out.push((x & 0xff) as u8);
    assert(out@ =~= old(out)@ + be32(x));
}

fn push_op(out: &mut Vec<u8>, op: &Operation)
    ensures
        final(out)@ == old(out)@ + ser_op(*op),
{
    let (tag, plen): (u8, u8) = match op {
        Operation::Crop { .. } => (1, 16),
        Operation::Contrast { .. } => (2, 2),
        Operation::FlipH => (3, 0),
        Operation::FlipV => (4, 0),
        Operation::Filter { .. } => (5, 4),
        Operation::Resize { .. } => (6, 10),
        Operation::Watermark { .. } => (7, 8),
        Operation::Unknown { tag } => (*tag, 0),
    };
    out.push(tag);
    out.push(0);
    out.push(plen);
    match op {
        Operation::Crop { x1, y1, x2, y2 } => {
            push_be32(out, *x1);
            push_be32(out, *y1);
            push_be32(out, *x2);
            push_be32(out, *y2);
        },
        Operation::Contrast { level } => {
            let bits: u16 = *level as u16;
            out.push(((bits >> 8) & 0xff) as u8);
            out.push((bits & 0xff) as u8);
        },
        Operation::Filter { kind } => {
            push_be32(out, *kind);
        },
        Operation::Resize { width, height, mode, sample } => {
            push_be32(out, *width);
            push_be32(out, *height);
            let mb: u8 = match mode {
                ResizeMode::Normal => 0,
                ResizeMode::ContentAware => 1,
            };
            let sb: u8 = match sample {
                SampleFilter::Undefined => 0,
                SampleFilter::Nearest => 1,
                SampleFilter::Triangle => 2,
                SampleFilter::CatmullRom => 3,
                SampleFilter::Gaussian => 4,
                SampleFilter::Lanczos3 => 5,
            };
            out.push(mb);
            out.push(sb);
        },
        Operation::Watermark { x, y } => {
            push_be32(out, *x);
            push_be32(out, *y);
        },
        _ => {},
    }
    assert(out@ =~= old(out)@ + ser_op(*op));
}

/// Encode a sequence as raw wire bytes.
pub fn encode_wire(ops: &Vec<Operation>) -> (w: Vec<u8>)
    ensures
        w@ == ser_ops(ops@),
{
    let mut out: Vec<u8> = Vec::new();
    let mut i: usize = 0;
    while i < ops.len()
        invariant
            i <= ops.len(),
            out@ == ser_ops(ops@.take(i as int)),
        decreases ops.len() - i,
    {
        let ghost pre = ops@.take(i as int);
        push_op(&mut out, &ops[i]);
        proof {
            lemma_ser_ops_snoc(pre, ops@[i as int]);
            assert(ops@.take(i + 1 as int) =~= pre + seq![ops@[i as int]]);
        }
        i = i + 1;
    }
    assert(ops@.take(ops@.len() as int) =~= ops@);
    out
}

/// Encode a sequence as a hex token in raw bytes (each a hex digit's ASCII
/// code).
pub fn encode_token_bytes(ops: &Vec<Operation>) -> (t: Vec<u8>)
    ensures
        t@ == spec_encode(ops@),
{
    let w = encode_wire(ops);
    let mut out: Vec<u8> = Vec::new();
    let mut i: usize = 0;
    while i < w.len()
        invariant
            i <= w.len(),
            out@ == hex_of(w@.take(i as int)),
        decreases w.len() - i,
    {
        let b = w[i];
        proof {
            lemma_nibbles(b);
        }
        let hi: u8 = (b >> 4) & 0xf;
        let lo: u8 = b & 0xf;
        let c0: u8 = if hi < 10 { 48 + hi } else { 87 + hi };
        let c1: u8 = if lo < 10 { 48 + lo } else { 87 + lo };
        out.push(c0);
        out.push(c1);
        proof {
            assert(out@ =~= hex_of(w@.take(i + 1 as int)));
        }
        i = i + 1;
    }
    assert(w@.take(w@.len() as int) =~= w@);
    out
}

// ---------------------------------------------------------------------------
// Executable decoder
// ---------------------------------------------------------------------------

fn unhex_digit_exec(c: u8) -> (r: Option<u8>)
    ensures
        r == unhex_digit(c),
{
    if 48 <= c && c <= 57 {
        Some(c - 48)
    } else if 97 <= c && c <= 102 {
        Some(c - 87)
    } else if 65 <= c && c <= 70 {
        Some(c - 55)
    } else {
        None
    }
}

/// Read hex text back into raw bytes.
fn unhex_exec(t: &Vec<u8>) -> (r: Option<Vec<u8>>)
    ensures
        match unhex(t@) {
            Option::Some(b) => r matches Some(v) && v@ == b,
            Option::None => r is None,
        },
{
    if t.len() % 2 != 0 {
        return None;
    }
    let mut out: Vec<u8> = Vec::new();
    let mut i: usize = 0;
    while i < t.len()
        invariant
            i <= t.len(),
            i % 2 == 0,
            t.len() % 2 == 0,
            forall|j: int| 0 <= j < i ==> #[trigger] unhex_digit(t@[j]).is_some(),
            out@.len() == i / 2,
            forall|j: int|
                0 <= j < out@.len() ==> #[trigger] out@[j] == (unhex_digit(t@[2 * j]).unwrap() * 16
                    + unhex_digit(t@[2 * j + 1]).unwrap()) as u8,
        decreases t.len() - i,
    {
        let hi = match unhex_digit_exec(t[i]) {
            Some(v) => v,
            None => {
                return None;
            },
        };
        let lo = match unhex_digit_exec(t[i + 1]) {
            Some(v) => v,
            None => {
                return None;
            },
        };
        out.push(hi * 16 + lo);
        i = i + 2;
    }
    proof {
        let b = unhex(t@).unwrap();
        assert(out@ =~= b);
    }
    Some(out)
}

fn rd32_exec(b0: u8, b1: u8, b2: u8, b3: u8) -> (r: u32)
    ensures
        r == rd32(b0, b1, b2, b3),
{
    ((b0 as u32) << 24) | ((b1 as u32) << 16) | ((b2 as u32) << 8) | (b3 as u32)
}

/// Parse wire bytes into a sequence, or report where that is impossible.
fn parse_wire(b: &Vec<u8>) -> (r: Result<Vec<Operation>, ServiceError>)
    ensures
        match parse_ops(b@) {
            Option::Some(ops) => r matches Ok(v) && v@ == ops,
            Option::None => r matches Err(e) && e == ServiceError::MalformedSpec,
        },
{
    let mut acc: Vec<Operation> = Vec::new();
    let mut idx: usize = 0;
    proof {
        assert(b@.skip(0) =~= b@);
        if parse_ops(b@) is Some {
            let r = parse_ops(b@).unwrap();
            assert(Seq::<Operation>::empty() + r =~= r);
        }
    }
    while idx < b.len()
        invariant
            idx <= b.len(),
            parse_ops(b@) == match parse_ops(b@.skip(idx as int)) {
                Option::None => None::<Seq<Operation>>,
                Option::Some(rest) => Some(acc@ + rest),
            },
        decreases b.len() - idx,
    {
        let ghost tail = b@.skip(idx as int);
        if b.len() - idx < 3 {
            return Err(ServiceError::MalformedSpec);
        }
        let tag = b[idx];
        let len: usize = (b[idx + 1] as usize) * 256 + (b[idx + 2] as usize);
        if b.len() - idx - 3 < len {
            proof {
                assert(tail.len() < 3 + ((tail[1] as int) * 256 + (tail[2] as int)));
            }
            return Err(ServiceError::MalformedSpec);
        }
        let base = idx + 3;
        let ghost payload = b@.subrange(base as int, base + len as int);
        proof {
            assert(tail[0] == tag && tail[1] == b@[idx + 1] && tail[2] == b@[idx + 2]);
            assert((tail[1] as int) * 256 + (tail[2] as int) == len as int);
            assert(tail.subrange(3, 3 + len as int) =~= payload);
            assert(tail.skip(3 + len as int) =~= b@.skip(idx + 3 + len as int));
        }
        let op: Operation = if tag == 1 {
            if len != 16 {
                return Err(ServiceError::MalformedSpec);
            }
            Operation::Crop {
                x1: rd32_exec(b[base], b[base + 1], b[base + 2], b[base + 3]),
                y1: rd32_exec(b[base + 4], b[base + 5], b[base + 6], b[base + 7]),
                x2: rd32_exec(b[base + 8], b[base + 9], b[base + 10], b[base + 11]),
                y2: rd32_exec(b[base + 12], b[base + 13], b[base + 14], b[base + 15]),
            }
        } else if tag == 2 {
            if len != 2 {
                return Err(ServiceError::MalformedSpec);
            }
            let bits: u16 = ((b[base] as u16) << 8) | (b[base + 1] as u16);
            Operation::Contrast { level: #[verifier::truncate] (bits as i16) }
        } else if tag == 3 {
            if len != 0 {
                return Err(ServiceError::MalformedSpec);
            }
            Operation::FlipH
        } else if tag == 4 {
            if len != 0 {
                return Err(ServiceError::MalformedSpec);
            }
            Operation::FlipV
        } else if tag == 5 {
            if len != 4 {
                return Err(ServiceError::MalformedSpec);
            }
            Operation::Filter {
                kind: rd32_exec(b[base], b[base + 1], b[base + 2], b[base + 3]),
            }
        } else if tag == 6 {
            if len != 10 {
                return Err(ServiceError::MalformedSpec);
            }
            let mode = match b[base + 8] {
                0 => ResizeMode::Normal,
                1 => ResizeMode::ContentAware,
                _ => {
                    return Err(ServiceError::MalformedSpec);
                },
            };
            let sample = match b[base + 9] {
                0 => SampleFilter::Undefined,
                1 => SampleFilter::Nearest,
                2 => SampleFilter::Triangle,
                3 => SampleFilter::CatmullRom,
                4 => SampleFilter::Gaussian,
                5 => SampleFilter::Lanczos3,
                _ => {
                    return Err(ServiceError::MalformedSpec);
                },
            };
            Operation::Resize {
                width: rd32_exec(b[base], b[base + 1], b[base + 2], b[base + 3]),
                height: rd32_exec(b[base + 4], b[base + 5], b[base + 6], b[base + 7]),
                mode,
                sample,
            }
        } else if tag == 7 {
            if len != 8 {
                return Err(ServiceError::MalformedSpec);
            }
            Operation::Watermark {
                x: rd32_exec(b[base], b[base + 1], b[base + 2], b[base + 3]),
                y: rd32_exec(b[base + 4], b[base + 5], b[base + 6], b[base + 7]),
            }
        } else {
            Operation::Unknown { tag }
        };
        proof {
            assert(parse_payload(tag, payload) == Some(op));
        }
        let ghost acc_pre = acc@;
        acc.push(op);
        idx = base + len;
        proof {
            assert(parse_ops(tail) == match parse_ops(b@.skip(idx as int)) {
                Option::None => None::<Seq<Operation>>,
                Option::Some(rest) => Some(seq![op] + rest),
            });
            if parse_ops(b@.skip(idx as int)) is Some {
                let r = parse_ops(b@.skip(idx as int)).unwrap();
                assert(acc_pre + (seq![op] + r) =~= acc@ + r);
            }
        }
    }
    proof {
        assert(b@.skip(b@.len() as int) =~= Seq::<u8>::empty());
        assert(acc@ + Seq::<Operation>::empty() =~= acc@);
    }
    Ok(acc)
}

/// Decode a token given as raw bytes.
pub fn decode_token_bytes(t: &Vec<u8>) -> (r: Result<Vec<Operation>, ServiceError>)
    ensures
        match spec_decode(t@) {
            Option::Some(ops) => r matches Ok(v) && v@ == ops,
            Option::None => r matches Err(e) && e == ServiceError::MalformedSpec,
        },
{
    match unhex_exec(t) {
        Some(w) => parse_wire(&w),
        None => Err(ServiceError::MalformedSpec),
    }
}

// ---------------------------------------------------------------------------
// String-level token API
// ---------------------------------------------------------------------------

/// Relies on `String::from_utf8`: a vector of ASCII bytes is valid UTF-8 and
/// becomes the string with one char per byte, each the byte's code point.
#[verifier::external_body]
fn ascii_to_string(v: Vec<u8>) -> (r: String)
    requires
        forall|i: int| 0 <= i < v@.len() ==> v@[i] < 128,
    ensures
        r@ == v@.map_values(|b: u8| b as char),
{
    match String::from_utf8(v) {
        Ok(s) => s,
        Err(_) => String::new(),
    }
}

/// The chars of a token encoding a sequence.
pub open spec fn token_chars(ops: Seq<Operation>) -> Seq<char> {
    spec_encode(ops).map_values(|b: u8| b as char)
}

/// Encode a sequence as a URL-path-safe token: lowercase hex digits only.
pub fn encode_token(ops: &Vec<Operation>) -> (t: String)
    ensures
        t@ == token_chars(ops@),
{
    let bytes = encode_token_bytes(ops);
    proof {
        assert forall|i: int| 0 <= i < bytes@.len() implies bytes@[i] < 128 by {
            let w = ser_ops(ops@);
            lemma_nibbles(w[i / 2]);
            lemma_unhex_digit_hex((w[i / 2] >> 4) & 0xf);
            lemma_unhex_digit_hex(w[i / 2] & 0xf);
        }
    }
    ascii_to_string(bytes)
}

/// Decode a token given as a string slice.  Fails with `MalformedSpec` if and
/// only if the text is not the hex form of a parsable wire byte string.
pub fn decode_token(t: &str) -> (r: Result<Vec<Operation>, ServiceError>)
    ensures
        match spec_decode(t.spec_bytes()) {
            Option::Some(ops) => r matches Ok(v) && v@ == ops,
            Option::None => r matches Err(e) && e == ServiceError::MalformedSpec,
        },
{
    let bytes = t.as_bytes_vec();
    decode_token_bytes(&bytes)
}

} // verus!
