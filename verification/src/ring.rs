//! Queues between two threads, on top of the `rtrb` ring buffers.
//!
//! A ring has a writing end and a reading end. Each end keeps track of how
//! far it has seen the other one come, and only learns more when it looks
//! again: what it knows to be free, or to be waiting, stays so until it uses
//! it up itself. The contracts below speak of what an end knows.

use rtrb::{Consumer, Producer, RingBuffer};
use vstd::prelude::*;

verus! {

#[verifier::external_type_specification]
#[verifier::external_body]
#[verifier::reject_recursive_types(T)]
pub struct ExProducer<T>(Producer<T>);

#[verifier::external_type_specification]
#[verifier::external_body]
#[verifier::reject_recursive_types(T)]
pub struct ExConsumer<T>(Consumer<T>);

/// How many slots the writing end knows to be free.
pub uninterp spec fn room(p: Producer<u32>) -> nat;

/// Everything that went through the writing end, oldest first.
pub uninterp spec fn written(p: Producer<u32>) -> Seq<u32>;

/// The items the reading end knows to be waiting, oldest first.
pub uninterp spec fn queued(c: Consumer<u32>) -> Seq<u32>;

/// Calls `rtrb::RingBuffer::new`: a ring of that capacity, empty.
#[verifier::external_body]
pub(crate) fn new_ring(capacity: usize) -> (r: (Producer<u32>, Consumer<u32>))
    requires
        capacity <= isize::MAX / 4,
    ensures
        room(r.0) == capacity,
        written(r.0) == Seq::<u32>::empty(),
        queued(r.1) == Seq::<u32>::empty(),
{
    RingBuffer::new(capacity)
}

/// Calls `rtrb::Producer::slots`: looks at how far the reader has come. What
/// was free stays free; the reader may have freed more.
#[verifier::external_body]
pub(crate) fn look_for_room(p: &mut Producer<u32>) -> (n: usize)
    ensures
        n == room(*final(p)),
        room(*old(p)) <= n,
        written(*final(p)) == written(*old(p)),
{
    p.slots()
}

/// Calls `rtrb::Producer::write_chunk_uninit` and fills the chunk with
/// `rtrb::chunks::WriteChunkUninit::fill_from_iter`: either all of the
/// samples are written, or none of them because there are too few free
/// slots. Slots known to be free are enough.
#[verifier::external_body]
pub(crate) fn write_samples(p: &mut Producer<u32>, samples: &[u32]) -> (done: bool)
    ensures
        samples@.len() <= room(*old(p)) ==> done && room(*final(p)) == room(*old(p))
            - samples@.len(),
        done ==> written(*final(p)) == written(*old(p)) + samples@,
        !done ==> written(*final(p)) == written(*old(p)) && room(*final(p)) < samples@.len(),
{
    match p.write_chunk_uninit(samples.len()) {
        Ok(chunk) => {
            chunk.fill_from_iter(samples.iter().copied());
            true
        },
        Err(_) => false,
    }
}

/// Calls `rtrb::Consumer::slots`: looks at how far the writer has come. What
/// was waiting still is; the writer may have added more behind it.
#[verifier::external_body]
pub(crate) fn look_for_samples(c: &mut Consumer<u32>) -> (n: usize)
    ensures
        n == queued(*final(c)).len(),
        queued(*old(c)).is_prefix_of(queued(*final(c))),
{
    c.slots()
}

/// Calls `rtrb::Consumer::read_chunk`, copies the chunk out with
/// `rtrb::chunks::ReadChunk::as_slices` and frees it with
/// `rtrb::chunks::ReadChunk::commit_all`: either the oldest `n` samples, or
/// none because fewer are waiting.
#[verifier::external_body]
pub(crate) fn read_samples(c: &mut Consumer<u32>, n: usize, out: &mut Vec<u32>) -> (done: bool)
    ensures
        n <= queued(*old(c)).len() ==> done && final(out)@ == queued(*old(c)).take(n as int)
            && queued(*final(c)) == queued(*old(c)).skip(n as int),
        done ==> final(out)@.len() == n && queued(*old(c)).is_prefix_of(
            final(out)@ + queued(*final(c)),
        ),
        !done ==> queued(*old(c)).is_prefix_of(queued(*final(c))) && queued(*final(c)).len() < n
            && final(out)@ == old(out)@,
{
    match c.read_chunk(n) {
        Ok(chunk) => {
            let (first, second) = chunk.as_slices();
            out.clear();
            out.extend_from_slice(first);
            out.extend_from_slice(second);
            chunk.commit_all();
            true
        },
        Err(_) => false,
    }
}

/// Calls `rtrb::Consumer::read_chunk` and frees the chunk unread with
/// `rtrb::chunks::ReadChunk::commit_all`: either the oldest `n` samples are
/// gone, or none because fewer are waiting.
#[verifier::external_body]
pub(crate) fn drop_samples(c: &mut Consumer<u32>, n: usize) -> (done: bool)
    ensures
        n <= queued(*old(c)).len() ==> done && queued(*final(c)) == queued(*old(c)).skip(n as int),
        !done ==> queued(*old(c)).is_prefix_of(queued(*final(c))) && queued(*final(c)).len() < n,
{
    match c.read_chunk(n) {
        Ok(chunk) => {
            chunk.commit_all();
            true
        },
        Err(_) => false,
    }
}

/// Messages for the capture thread.
pub enum CaptureCmd {
    /// Feeds a queue from now on, under that key.
    Add(u64, Producer<u32>),
    /// Stops feeding the queue of that key.
    Remove(u64),
}

/// Everything sent through the writing end of a command queue, oldest first.
pub uninterp spec fn sent(p: Producer<CaptureCmd>) -> Seq<CaptureCmd>;

/// The commands the reading end knows to be waiting, oldest first.
pub uninterp spec fn waiting(c: Consumer<CaptureCmd>) -> Seq<CaptureCmd>;

/// How many slots the writing end of a command queue knows to be free.
pub uninterp spec fn space(p: Producer<CaptureCmd>) -> nat;

/// Calls `rtrb::RingBuffer::new`: a command queue of that capacity, empty.
#[verifier::external_body]
pub(crate) fn new_commands(capacity: usize) -> (r: (Producer<CaptureCmd>, Consumer<CaptureCmd>))
    requires
        capacity <= 1024,
    ensures
        space(r.0) == capacity,
        sent(r.0) == Seq::<CaptureCmd>::empty(),
        waiting(r.1) == Seq::<CaptureCmd>::empty(),
{
    RingBuffer::new(capacity)
}

/// Calls `rtrb::Producer::push`: the command is sent, or the queue is full
/// and nothing is. A slot known to be free is enough; where none is known,
/// which of the two it is depends on how far the reader has come.
#[verifier::external_body]
pub(crate) fn push_command(p: &mut Producer<CaptureCmd>, cmd: CaptureCmd) -> (done: bool)
    ensures
        sent(*final(p)) == if done {
            sent(*old(p)).push(cmd)
        } else {
            sent(*old(p))
        },
        space(*old(p)) > 0 ==> done && space(*final(p)) == space(*old(p)) - 1,
        !done ==> space(*final(p)) == 0,
{
    p.push(cmd).is_ok()
}

/// Calls `rtrb::Consumer::pop`: the oldest command that is waiting. One known
/// to be waiting is there; where none is known the writer may have sent some.
#[verifier::external_body]
pub(crate) fn pop_command(c: &mut Consumer<CaptureCmd>) -> (r: Option<CaptureCmd>)
    ensures
        waiting(*old(c)).len() > 0 ==> r == Some(waiting(*old(c))[0]) && waiting(*final(c))
            == waiting(*old(c)).drop_first(),
        r is None ==> waiting(*final(c)).len() == 0,
{
    c.pop().ok()
}

} // verus!
