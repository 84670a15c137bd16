//! The fixed-capacity vectors of `heapless` used by the collector: the
//! 4 KB SD card write buffer and the 50-line reconnection backlog.
//!
//! Their contents are named by `buffered_bytes` and `backlog_lines`; each
//! wrapper below states what the `heapless` method does to them.
use vstd::prelude::*;

verus! {

#[verifier::external_type_specification]
#[verifier::external_body]
#[verifier::reject_recursive_types(T)]
pub struct ExHeaplessVec<T, const N: usize>(heapless::Vec<T, N>);

/// Bytes held by a 4096-byte `heapless::Vec`, in order.
pub uninterp spec fn buffered_bytes(v: heapless::Vec<u8, 4096>) -> Seq<u8>;

/// Views of the lines held by a 50-line `heapless::Vec`, in order.
pub uninterp spec fn backlog_lines(v: heapless::Vec<String, 50>) -> Seq<Seq<char>>;

/// `heapless::Vec::new`: an empty vector.
#[verifier::external_body]
pub(crate) fn bytes_new() -> (r: heapless::Vec<u8, 4096>)
    ensures
        buffered_bytes(r) == Seq::<u8>::empty(),
{
    heapless::Vec::new()
}

/// `heapless::Vec::len` (through its slice): the number of bytes held,
/// never more than the capacity.
#[verifier::external_body]
pub(crate) fn bytes_len(v: &heapless::Vec<u8, 4096>) -> (r: usize)
    ensures
        r == buffered_bytes(*v).len(),
        r <= 4096,
{
    v.len()
}

/// `heapless::Vec::extend_from_slice`: appends all of `other` when it fits
/// in the capacity; otherwise fails and leaves the vector unchanged.
#[verifier::external_body]
pub(crate) fn bytes_extend(v: &mut heapless::Vec<u8, 4096>, other: &[u8]) -> (r: Result<(), ()>)
    ensures
        buffered_bytes(*old(v)).len() + other@.len() <= 4096 ==> r is Ok && buffered_bytes(
            *final(v),
        ) == buffered_bytes(*old(v)) + other@,
        buffered_bytes(*old(v)).len() + other@.len() > 4096 ==> r is Err && buffered_bytes(
            *final(v),
        ) == buffered_bytes(*old(v)),
{
    v.extend_from_slice(other)
}

/// `heapless::Vec::clear`: removes every byte.
#[verifier::external_body]
pub(crate) fn bytes_clear(v: &mut heapless::Vec<u8, 4096>)
    ensures
        buffered_bytes(*final(v)) == Seq::<u8>::empty(),
{
    v.clear()
}

/// `heapless::Vec::as_slice`: the bytes held, in order.
#[verifier::external_body]
pub(crate) fn bytes_as_slice(v: &heapless::Vec<u8, 4096>) -> (r: &[u8])
    ensures
        r@ == buffered_bytes(*v),
{
    v.as_slice()
}

/// `heapless::Vec::new`: an empty backlog.
#[verifier::external_body]
pub(crate) fn lines_new() -> (r: heapless::Vec<String, 50>)
    ensures
        backlog_lines(r) == Seq::<Seq<char>>::empty(),
{
    heapless::Vec::new()
}

/// `heapless::Vec::len` (through its slice): the number of lines held,
/// never more than the capacity.
#[verifier::external_body]
pub(crate) fn lines_len(v: &heapless::Vec<String, 50>) -> (r: usize)
    ensures
        r == backlog_lines(*v).len(),
        r <= 50,
{
    v.len()
}

/// `heapless::Vec::push`: appends the line when the vector is not full;
/// otherwise hands the line back and leaves the vector unchanged.
#[verifier::external_body]
pub(crate) fn lines_push(v: &mut heapless::Vec<String, 50>, item: String) -> (r: Result<(), String>)
    ensures
        backlog_lines(*old(v)).len() < 50 ==> r is Ok && backlog_lines(*final(v)) == backlog_lines(
            *old(v),
        ).push(item@),
        backlog_lines(*old(v)).len() >= 50 ==> (r matches Err(back) && back == item) && backlog_lines(
            *final(v),
        ) == backlog_lines(*old(v)),
{
    v.push(item)
}

/// `heapless::Vec::remove`: takes out the line at `index`, shifting the
/// later lines down by one.
#[verifier::external_body]
pub(crate) fn lines_remove(v: &mut heapless::Vec<String, 50>, index: usize) -> (r: String)
    requires
        index < backlog_lines(*old(v)).len(),
    ensures
        r@ == backlog_lines(*old(v))[index as int],
        backlog_lines(*final(v)) == backlog_lines(*old(v)).remove(index as int),
{
    v.remove(index)
}

/// `heapless::Vec::insert`: puts the line at `index`, shifting the later
/// lines up by one, when the vector is not full; otherwise hands the line
/// back and leaves the vector unchanged.
#[verifier::external_body]
pub(crate) fn lines_insert(v: &mut heapless::Vec<String, 50>, index: usize, item: String) -> (r:
    Result<(), String>)
    requires
        index <= backlog_lines(*old(v)).len(),
    ensures
        backlog_lines(*old(v)).len() < 50 ==> r is Ok && backlog_lines(*final(v)) == backlog_lines(
            *old(v),
        ).insert(index as int, item@),
        backlog_lines(*old(v)).len() >= 50 ==> (r matches Err(back) && back == item) && backlog_lines(
            *final(v),
        ) == backlog_lines(*old(v)),
{
    v.insert(index, item)
}

} // verus!
