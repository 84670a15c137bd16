//! The compact 18-byte binary record of a telemetry frame published over
//! MQTT, and the batches of records sent in one message.
use crate::text::{concat, join_all, padded_pieces, push_padded, push_str_piece};
use crate::types::{label_number, DataSource, SessionLabel};
use vstd::prelude::*;

verus! {

/// Size in bytes of one record.
pub const BINARY_FRAME_SIZE: usize = 18;

/// Largest number of records sent in one MQTT message.
pub const MAX_BATCH_FRAMES: usize = 150;

/// Binary record of a telemetry frame. The two values are the IEEE-754
/// single-precision bit patterns of the frame's main signals.
#[derive(Clone, Copy, Debug, PartialEq, Eq, Structural)]
pub struct BinaryFrame {
    pub timestamp_ms: u32,
    pub can_id: u16,
    pub source: u8,
    pub label: u8,
    pub val1_bits: u32,
    pub val2_bits: u32,
    pub obd_latency: u16,
}

/// Code of a data source in a record.
pub open spec fn source_code(s: DataSource) -> u8 {
    match s {
        DataSource::CanDbc => 0,
        DataSource::ObdPid => 1,
    }
}

/// The first present value among three, or 0 (the bits of `0.0`) when
/// none is present.
pub open spec fn first_present(a: Option<u32>, b: Option<u32>, c: Option<u32>) -> u32 {
    match a {
        Some(x) => x,
        None => match b {
            Some(x) => x,
            None => match c {
                Some(x) => x,
                None => 0,
            },
        },
    }
}

/// Picks the value stored in a record slot: the first present of three
/// candidate signals (as bit patterns), else the bits of `0.0`.
pub fn select_value(a: Option<u32>, b: Option<u32>, c: Option<u32>) -> (r: u32)
    ensures
        r == first_present(a, b, c),
        a matches Some(x) ==> r == x,
        a is None ==> (b matches Some(y) ==> r == y),
        a is None && b is None ==> (c matches Some(z) ==> r == z),
        a is None && b is None && c is None ==> r == 0,
{
    match a {
        Some(x) => x,
        None => match b {
            Some(x) => x,
            None => match c {
                Some(x) => x,
                None => 0,
            },
        },
    }
}

/// A record slot keeps the first candidate signal that is present, in the
/// candidates' order of priority, and holds the bits of `0.0` only when
/// none is present: a present candidate is never lost to a later one.
pub proof fn lemma_first_present_priority(a: Option<u32>, b: Option<u32>, c: Option<u32>)
    ensures
        a matches Some(x) ==> first_present(a, b, c) == x,
        a is None ==> (b matches Some(y) ==> first_present(a, b, c) == y),
        a is None && b is None ==> (c matches Some(z) ==> first_present(a, b, c) == z),
        a is None && b is None && c is None ==> first_present(a, b, c) == 0,
        (a is Some || b is Some || c is Some) ==> exists|v: u32|
            first_present(a, b, c) == v && (a == Some(v) || b == Some(v) || c == Some(v)),
{
    if a is Some || b is Some || c is Some {
        let v = first_present(a, b, c);
        assert(a == Some(v) || b == Some(v) || c == Some(v));
    }
}

impl BinaryFrame {
    /// The record of a frame: the timestamp keeps its low 32 bits and the
    /// CAN identifier its low 16 bits.
    pub fn pack(
        timestamp_ms: u64,
        can_id: u32,
        source: DataSource,
        label: SessionLabel,
        val1_bits: u32,
        val2_bits: u32,
        obd_latency: u16,
    ) -> (r: BinaryFrame)
        ensures
            r.timestamp_ms as int == timestamp_ms as int % 0x1_0000_0000,
            r.can_id as int == can_id as int % 0x1_0000,
            r.source == source_code(source),
            r.label == label_number(label),
            r.val1_bits == val1_bits,
            r.val2_bits == val2_bits,
            r.obd_latency == obd_latency,
    {
        let ts: u32 = (timestamp_ms & 0xFFFF_FFFF) as u32;
        let id: u16 = (can_id & 0xFFFF) as u16;
        assert(timestamp_ms & 0xFFFF_FFFF == timestamp_ms % 0x1_0000_0000) by (bit_vector);
        assert(can_id & 0xFFFF == can_id % 0x1_0000) by (bit_vector);
        let source_byte: u8 = match source {
            DataSource::CanDbc => 0,
            DataSource::ObdPid => 1,
        };
        BinaryFrame {
            timestamp_ms: ts,
            can_id: id,
            source: source_byte,
            label: label.as_u8(),
            val1_bits,
            val2_bits,
            obd_latency,
        }
    }
}

/// Little-endian bytes of a 16-bit value.
pub open spec fn le16(x: u16) -> Seq<u8> {
    seq![(x % 256) as u8, (x / 256) as u8]
}

/// Little-endian bytes of a 32-bit value.
pub open spec fn le32(x: u32) -> Seq<u8> {
    seq![
        (x % 256) as u8,
        ((x / 256) % 256) as u8,
        ((x / 0x1_0000) % 256) as u8,
        (x / 0x100_0000) as u8,
    ]
}

/// The 18 bytes of a record, packed with no padding, little endian:
/// timestamp, CAN id, source, label, value 1, value 2, OBD latency.
pub open spec fn frame_bytes(f: BinaryFrame) -> Seq<u8> {
    le32(f.timestamp_ms) + le16(f.can_id) + seq![f.source, f.label] + le32(f.val1_bits) + le32(
        f.val2_bits,
    ) + le16(f.obd_latency)
}

fn push_le16(out: &mut Vec<u8>, x: u16)
    ensures
        final(out)@ == old(out)@ + le16(x),
{
    out.push((x % 256) as u8);
    out.push((x / 256) as u8);
    assert(final(out)@ =~= old(out)@ + le16(x));
}

fn push_le32(out: &mut Vec<u8>, x: u32)
    ensures
        final(out)@ == old(out)@ + le32(x),
{
    out.push((x % 256) as u8);
    out.push(((x / 256) % 256) as u8);
    out.push(((x / 0x1_0000) % 256) as u8);
    out.push((x / 0x100_0000) as u8);
    assert(final(out)@ =~= old(out)@ + le32(x));
}

fn read_le16(b: &[u8], at: usize) -> (r: u16)
    requires
        at + 2 <= b@.len(),
    ensures
        le16(r) == b@.subrange(at as int, at + 2),
{
    let lo = b[at];
    let hi = b[at + 1];
    let r: u16 = (hi as u16) * 256 + (lo as u16);
    assert(le16(r) =~= b@.subrange(at as int, at + 2));
    r
}

fn read_le32(b: &[u8], at: usize) -> (r: u32)
    requires
        at + 4 <= b@.len(),
    ensures
        le32(r) == b@.subrange(at as int, at + 4),
{
    let b0 = b[at] as u32;
    let b1 = b[at + 1] as u32;
    let b2 = b[at + 2] as u32;
    let b3 = b[at + 3] as u32;
    let r: u32 = b3 * 0x100_0000 + b2 * 0x1_0000 + b1 * 256 + b0;
    assert(r % 256 == b0 && (r / 256) % 256 == b1 && (r / 0x1_0000) % 256 == b2 && r / 0x100_0000
        == b3) by (nonlinear_arith)
        requires
            b0 < 256,
            b1 < 256,
            b2 < 256,
            b3 < 256,
            r == b3 * 0x100_0000 + b2 * 0x1_0000 + b1 * 256 + b0,
    ;
    assert(le32(r) =~= b@.subrange(at as int, at + 4));
    r
}

impl BinaryFrame {
    /// The record's 18 bytes.
    pub fn to_bytes(&self) -> (r: Vec<u8>)
        ensures
            r@ == frame_bytes(*self),
            r@.len() == BINARY_FRAME_SIZE,
    {
        let mut out: Vec<u8> = Vec::new();
        push_le32(&mut out, self.timestamp_ms);
        push_le16(&mut out, self.can_id);
        out.push(self.source);
        out.push(self.label);
        push_le32(&mut out, self.val1_bits);
        push_le32(&mut out, self.val2_bits);
        push_le16(&mut out, self.obd_latency);
        assert(out@ =~= frame_bytes(*self));
        out
    }

    /// The record held by 18 bytes; `None` for any other length.
    pub fn from_bytes(b: &[u8]) -> (r: Option<BinaryFrame>)
        ensures
            r is Some <==> b@.len() == BINARY_FRAME_SIZE,
            r matches Some(f) ==> frame_bytes(f) == b@,
    {
        if b.len() != BINARY_FRAME_SIZE {
            return None;
        }
        let f = BinaryFrame {
            timestamp_ms: read_le32(b, 0),
            can_id: read_le16(b, 4),
            source: b[6],
            label: b[7],
            val1_bits: read_le32(b, 8),
            val2_bits: read_le32(b, 12),
            obd_latency: read_le16(b, 16),
        };
        assert(frame_bytes(f) =~= b@);
        Some(f)
    }
}

/// The record encoding loses nothing: two records with the same bytes are
/// the same record, so decoding a record's bytes gives the record back.
pub proof fn lemma_frame_bytes_injective(f: BinaryFrame, g: BinaryFrame)
    requires
        frame_bytes(f) == frame_bytes(g),
    ensures
        f == g,
{
    let bf = frame_bytes(f);
    let bg = frame_bytes(g);
    assert(bf[0] == bg[0] && bf[1] == bg[1] && bf[2] == bg[2] && bf[3] == bg[3]);
    assert(bf[4] == bg[4] && bf[5] == bg[5]);
    assert(bf[6] == bg[6] && bf[7] == bg[7]);
    assert(bf[8] == bg[8] && bf[9] == bg[9] && bf[10] == bg[10] && bf[11] == bg[11]);
    assert(bf[12] == bg[12] && bf[13] == bg[13] && bf[14] == bg[14] && bf[15] == bg[15]);
    assert(bf[16] == bg[16] && bf[17] == bg[17]);
    lemma_le32_injective(f.timestamp_ms, g.timestamp_ms);
    lemma_le16_injective(f.can_id, g.can_id);
    lemma_le32_injective(f.val1_bits, g.val1_bits);
    lemma_le32_injective(f.val2_bits, g.val2_bits);
    lemma_le16_injective(f.obd_latency, g.obd_latency);
}

proof fn lemma_le16_injective(x: u16, y: u16)
    requires
        le16(x)[0] == le16(y)[0],
        le16(x)[1] == le16(y)[1],
    ensures
        x == y,
{
    assert(x == (x / 256) * 256 + x % 256 && y == (y / 256) * 256 + y % 256) by (nonlinear_arith);
}

proof fn lemma_le32_injective(x: u32, y: u32)
    requires
        le32(x)[0] == le32(y)[0],
        le32(x)[1] == le32(y)[1],
        le32(x)[2] == le32(y)[2],
        le32(x)[3] == le32(y)[3],
    ensures
        x == y,
{
    assert(x == (x / 0x100_0000) * 0x100_0000 + ((x / 0x1_0000) % 256) * 0x1_0000 + ((x / 256)
        % 256) * 256 + x % 256) by (nonlinear_arith);
    assert(y == (y / 0x100_0000) * 0x100_0000 + ((y / 0x1_0000) % 256) * 0x1_0000 + ((y / 256)
        % 256) * 256 + y % 256) by (nonlinear_arith);
}

/// The bytes of a list of records, one after the other.
pub open spec fn batch_bytes(frames: Seq<BinaryFrame>) -> Seq<u8>
    decreases frames.len(),
{
    if frames.len() == 0 {
        Seq::empty()
    } else {
        batch_bytes(frames.drop_last()) + frame_bytes(frames.last())
    }
}

/// The payload of a batch message: the records' bytes, in order.
pub fn batch_payload(frames: &Vec<BinaryFrame>) -> (r: Vec<u8>)
    requires
        frames@.len() <= MAX_BATCH_FRAMES,
    ensures
        r@ == batch_bytes(frames@),
        r@.len() == frames@.len() * BINARY_FRAME_SIZE,
{
    let mut out: Vec<u8> = Vec::new();
    let mut i: usize = 0;
    while i < frames.len()
        invariant
            i <= frames@.len(),
            frames@.len() <= MAX_BATCH_FRAMES,
            out@ == batch_bytes(frames@.subrange(0, i as int)),
            out@.len() == i * BINARY_FRAME_SIZE,
        decreases frames@.len() - i,
    {
        let bytes = frames[i].to_bytes();
        let mut k: usize = 0;
        let ghost start = out@;
        while k < bytes.len()
            invariant
                k <= bytes@.len(),
                out@ == start + bytes@.subrange(0, k as int),
            decreases bytes@.len() - k,
        {
            out.push(bytes[k]);
            k = k + 1;
            assert(out@ =~= start + bytes@.subrange(0, k as int));
        }
        assert(frames@.subrange(0, i + 1).drop_last() =~= frames@.subrange(0, i as int));
        assert(bytes@.subrange(0, bytes@.len() as int) =~= bytes@);
        i = i + 1;
    }
    assert(frames@.subrange(0, i as int) =~= frames@);
    out
}

/// Topic of a session's binary telemetry: `/telemetry/S<id, 4 digits>/raw`.
pub open spec fn telemetry_topic_text(session_id: u16) -> Seq<char> {
    seq!['/', 't', 'e', 'l', 'e', 'm', 'e', 't', 'r', 'y', '/', 'S'] + concat(
        padded_pieces(session_id as nat, 4),
    ) + seq!['/', 'r', 'a', 'w']
}

/// The MQTT topic of a session's binary telemetry batches.
pub fn telemetry_topic(session_id: u16) -> (r: String)
    ensures
        r@ == telemetry_topic_text(session_id),
{
    let mut pieces: Vec<String> = Vec::new();
    proof {
        reveal_strlit("/telemetry/S");
        reveal_strlit("/raw");
    }
    push_str_piece(&mut pieces, "/telemetry/S");
    let mut num: Vec<String> = Vec::new();
    push_padded(&mut num, session_id as u64, 4);
    let number = join_all(&num);
    push_str_piece(&mut pieces, number.as_str());
    push_str_piece(&mut pieces, "/raw");
    let r = join_all(&pieces);
    proof {
        reveal_with_fuel(concat, 4);
        assert(r@ =~= telemetry_topic_text(session_id));
    }
    r
}

} // verus!
