//! The 4 KB RAM buffer in front of the SD card: lines are appended to it
//! and it is flushed to the active session file in 256-byte chunks.
use crate::bounded_vec::{
    buffered_bytes, bytes_as_slice, bytes_clear, bytes_extend, bytes_len, bytes_new,
};
use crate::csv::{
    boot_text, csv_header, header_text, lemma_boot_text, lemma_header_shape, serialize_boot,
};
use crate::types::SessionLabel;
use vstd::prelude::*;
use vstd::string::StringSliceAdditionalSpecFns;
use vstd::utf8::encode_utf8;

verus! {

/// Capacity of the buffer in bytes (eight FAT32 sectors).
pub const SD_BUFFER_CAPACITY: usize = 4096;

/// Fill level (85 %) at which a flush is requested.
pub const FLUSH_THRESHOLD: usize = 3584;

/// Size of the chunks in which the buffer is written to the card.
pub const SD_CHUNK_SIZE: usize = 256;

/// RAM buffer of bytes waiting to be written to the SD card.
pub struct SdBuffer {
    bytes: heapless::Vec<u8, 4096>,
    flush_needed: bool,
}

impl View for SdBuffer {
    type V = Seq<u8>;

    closed spec fn view(&self) -> Seq<u8> {
        buffered_bytes(self.bytes)
    }
}

/// Contents after `push_line` with the given card state and line bytes:
/// the line is appended when the card is present and the whole line fits,
/// otherwise nothing changes.
pub open spec fn pushed(contents: Seq<u8>, sd_ok: bool, line: Seq<u8>) -> Seq<u8> {
    if sd_ok && contents.len() + line.len() <= SD_BUFFER_CAPACITY {
        contents + line
    } else {
        contents
    }
}

/// Whether `push_line` accepts a line.
pub open spec fn push_accepted(contents: Seq<u8>, sd_ok: bool, line: Seq<u8>) -> bool {
    sd_ok && contents.len() + line.len() <= SD_BUFFER_CAPACITY
}

impl SdBuffer {
    /// The buffer holds at most its capacity, and a flush is requested only
    /// while it holds at least the flush threshold (so never while empty).
    pub closed spec fn wf(&self) -> bool {
        &&& buffered_bytes(self.bytes).len() <= SD_BUFFER_CAPACITY
        &&& self.flush_needed ==> buffered_bytes(self.bytes).len() >= FLUSH_THRESHOLD
    }

    /// Whether a flush was requested since the buffer was last emptied.
    pub closed spec fn flush_requested(&self) -> bool {
        self.flush_needed
    }

    /// An empty buffer.
    pub fn new() -> (r: SdBuffer)
        ensures
            r.wf(),
            r@ == Seq::<u8>::empty(),
            !r.flush_requested(),
    {
        SdBuffer { bytes: bytes_new(), flush_needed: false }
    }

    /// Number of bytes waiting to be written.
    pub fn len(&self) -> (r: usize)
        requires
            self.wf(),
        ensures
            r == self@.len(),
            r <= SD_BUFFER_CAPACITY,
    {
        bytes_len(&self.bytes)
    }

    /// The bytes waiting to be written.
    pub fn as_slice(&self) -> (r: &[u8])
        ensures
            r@ == self@,
    {
        bytes_as_slice(&self.bytes)
    }

    /// Whether a flush was requested since the buffer was last emptied (the
    /// writer task is to be woken).
    pub fn flush_pending(&self) -> (r: bool)
        ensures
            r == self.flush_requested(),
    {
        self.flush_needed
    }

    /// The buffer never holds more than its capacity, and an empty buffer
    /// has no flush requested.
    pub proof fn lemma_bounded(&self)
        requires
            self.wf(),
        ensures
            self@.len() <= SD_BUFFER_CAPACITY,
            self.flush_requested() ==> self@.len() >= FLUSH_THRESHOLD,
            self@.len() == 0 ==> !self.flush_requested(),
    {
    }
}

/// Appends a line to the buffer. Fails when the card is absent or the
/// whole line does not fit; then the buffer is unchanged. On success it
/// returns whether the buffer reached the flush threshold (the writer task
/// is then woken).
pub fn push_line(buffer: &mut SdBuffer, sd_ok: bool, line: &str) -> (r: Result<bool, ()>)
    requires
        old(buffer).wf(),
    ensures
        final(buffer).wf(),
        final(buffer)@ == pushed(old(buffer)@, sd_ok, line.spec_bytes()),
        r is Ok <==> push_accepted(old(buffer)@, sd_ok, line.spec_bytes()),
        r matches Ok(flush) ==> flush == (final(buffer)@.len() >= FLUSH_THRESHOLD)
            && final(buffer).flush_requested() == (old(buffer).flush_requested() || flush),
        r is Err ==> final(buffer).flush_requested() == old(buffer).flush_requested(),
{
    if !sd_ok {
        return Err(());
    }
    let bytes = line.as_bytes();
    let len = bytes_len(&buffer.bytes);
    if bytes.len() > SD_BUFFER_CAPACITY - len {
        return Err(());
    }
    let _ = bytes_extend(&mut buffer.bytes, bytes);
    let new_len = bytes_len(&buffer.bytes);
    if new_len >= FLUSH_THRESHOLD {
        buffer.flush_needed = true;
        Ok(true)
    } else {
        Ok(false)
    }
}

/// Empties the buffer (used when the card is wiped, so that no deleted
/// session file is recreated).
pub fn clear_buffer(buffer: &mut SdBuffer)
    ensures
        final(buffer).wf(),
        final(buffer)@ == Seq::<u8>::empty(),
        !final(buffer).flush_requested(),
{
    bytes_clear(&mut buffer.bytes);
    buffer.flush_needed = false;
}

/// Takes the pending bytes out of the buffer for writing to the card.
/// With the card absent nothing is taken. A buffer holding bytes is left
/// empty with no flush requested.
pub fn take_for_flush(buffer: &mut SdBuffer, sd_ok: bool) -> (r: heapless::Vec<u8, 4096>)
    requires
        old(buffer).wf(),
    ensures
        final(buffer).wf(),
        sd_ok ==> buffered_bytes(r) == old(buffer)@ && final(buffer)@ == Seq::<u8>::empty(),
        !sd_ok ==> buffered_bytes(r) == Seq::<u8>::empty() && final(buffer)@ == old(buffer)@,
        final(buffer).flush_requested() == (old(buffer).flush_requested() && !sd_ok),
{
    let mut out = bytes_new();
    if !sd_ok {
        return out;
    }
    let len = bytes_len(&buffer.bytes);
    if len > 0 {
        let _ = bytes_extend(&mut out, bytes_as_slice(&buffer.bytes));
        bytes_clear(&mut buffer.bytes);
        buffer.flush_needed = false;
    }
    assert(buffered_bytes(out) =~= old(buffer)@);
    out
}

/// Splits bytes into consecutive chunks of `size` bytes (the last one may
/// be shorter), in order.
pub fn split_chunks(bytes: &[u8], size: usize) -> (r: Vec<Vec<u8>>)
    requires
        size > 0,
    ensures
        flatten(chunk_views(r@)) == bytes@,
        forall|i: int| 0 <= i < r@.len() ==> 0 < #[trigger] r@[i]@.len() <= size,
        forall|i: int| 0 <= i < r@.len() - 1 ==> #[trigger] r@[i]@.len() == size,
{
    let mut out: Vec<Vec<u8>> = Vec::new();
    let mut start: usize = 0;
    assert(flatten(chunk_views(out@)) =~= bytes@.subrange(0, 0));
    while start < bytes.len()
        invariant
            start <= bytes@.len(),
            size > 0,
            flatten(chunk_views(out@)) == bytes@.subrange(0, start as int),
            forall|i: int| 0 <= i < out@.len() ==> 0 < #[trigger] out@[i]@.len() <= size,
            start < bytes@.len() ==> forall|i: int|
                0 <= i < out@.len() ==> #[trigger] out@[i]@.len() == size,
            forall|i: int| 0 <= i < out@.len() - 1 ==> #[trigger] out@[i]@.len() == size,
        decreases bytes@.len() - start,
    {
        let end: usize = if bytes.len() - start > size {
            start + size
        } else {
            bytes.len()
        };
        let mut chunk: Vec<u8> = Vec::new();
        let mut k: usize = start;
        while k < end
            invariant
                start <= k <= end,
                end <= bytes@.len(),
                chunk@ == bytes@.subrange(start as int, k as int),
            decreases end - k,
        {
            chunk.push(bytes[k]);
            k = k + 1;
            assert(chunk@ =~= bytes@.subrange(start as int, k as int));
        }
        let ghost before = out@;
        out.push(chunk);
        proof {
            lemma_flatten_push(chunk_views(before), chunk@);
            assert(chunk_views(out@) =~= chunk_views(before).push(chunk@));
            assert(bytes@.subrange(0, start as int) + bytes@.subrange(start as int, end as int)
                =~= bytes@.subrange(0, end as int));
            assert(forall|i: int| 0 <= i < before.len() ==> out@[i] == before[i]);
        }
        start = end;
    }
    assert(bytes@.subrange(0, start as int) =~= bytes@);
    out
}

/// Views of a list of byte vectors.
pub open spec fn chunk_views(chunks: Seq<Vec<u8>>) -> Seq<Seq<u8>> {
    chunks.map_values(|c: Vec<u8>| c@)
}

/// Concatenation of byte sequences, in order.
pub open spec fn flatten(parts: Seq<Seq<u8>>) -> Seq<u8>
    decreases parts.len(),
{
    if parts.len() == 0 {
        Seq::empty()
    } else {
        flatten(parts.drop_last()) + parts.last()
    }
}

proof fn lemma_flatten_push(parts: Seq<Seq<u8>>, x: Seq<u8>)
    ensures
        flatten(parts.push(x)) == flatten(parts) + x,
{
    assert(parts.push(x).drop_last() =~= parts);
}

/// The write offset of the session file after a flush of `len` bytes: it
/// advances (modulo 2^32) only when every chunk was written.
pub fn advance_write_offset(offset: u32, len: usize, success: bool) -> (r: u32)
    ensures
        success ==> r as int == (offset as int + (len as u32) as int) % 0x1_0000_0000,
        !success ==> r == offset,
{
    if success {
        let add: u32 = len as u32;
        offset.wrapping_add(add)
    } else {
        offset
    }
}

/// Bytes of the header line.
pub open spec fn header_bytes() -> Seq<u8> {
    encode_utf8(header_text())
}

/// Bytes of the boot line of a session with the given label.
pub open spec fn boot_bytes(label: SessionLabel) -> Seq<u8> {
    encode_utf8(boot_text(0, label))
}

/// Starts a new session file in the buffer: writes the CSV header and then
/// the boot line (timestamp 0) with the session's label.
pub fn open_session(buffer: &mut SdBuffer, sd_ok: bool, label: SessionLabel)
    requires
        old(buffer).wf(),
    ensures
        final(buffer).wf(),
        final(buffer)@ == pushed(
            pushed(old(buffer)@, sd_ok, header_bytes()),
            sd_ok,
            boot_bytes(label),
        ),
{
    let header = csv_header();
    let _ = push_line(buffer, sd_ok, header);
    let boot = serialize_boot(0, &label);
    let _ = push_line(buffer, sd_ok, boot.as_str());
}

/// A new session file starts with the header line, then the boot line:
/// once the buffer was emptied by a flush, opening a session on a present
/// card leaves exactly these two lines in it.
pub proof fn lemma_session_starts_with_header_then_boot(label: SessionLabel)
    ensures
        pushed(pushed(Seq::<u8>::empty(), true, header_bytes()), true, boot_bytes(label))
            == header_bytes() + boot_bytes(label),
{
    lemma_header_shape();
    lemma_boot_ascii(label);
    assert(Seq::<u8>::empty() + header_bytes() =~= header_bytes());
}

proof fn lemma_boot_ascii(label: SessionLabel)
    ensures
        boot_bytes(label).len() <= 48,
{
    lemma_boot_text(0, label);
}

/// Pushing lines that each fit (card present) and then taking the buffer
/// for a flush hands the lines out in the order they were pushed.
pub proof fn lemma_lines_flushed_in_order(start: Seq<u8>, first: Seq<u8>, second: Seq<u8>)
    requires
        start.len() + first.len() + second.len() <= SD_BUFFER_CAPACITY,
    ensures
        pushed(pushed(start, true, first), true, second) == start + first + second,
{
}

} // verus!
