//! The ring buffer between the audio callback and the capture thread.
//!
//! The two ends live on different threads, so what the ring holds at any
//! moment is not known to either of them. What each end knows is its own side
//! of the stream: everything it has put in, or everything it has taken out. The
//! two sides of one ring are the same stream, of which one has seen more than
//! the other. Samples travel as 32-bit words.

use vstd::prelude::*;

verus! {

/// The writing end of an `rtrb` ring buffer.
#[verifier::external_type_specification]
#[verifier::external_body]
#[verifier::reject_recursive_types(T)]
pub struct ExProducer<T>(rtrb::Producer<T>);

/// The reading end of an `rtrb` ring buffer.
#[verifier::external_type_specification]
#[verifier::external_body]
#[verifier::reject_recursive_types(T)]
pub struct ExConsumer<T>(rtrb::Consumer<T>);

/// Everything that was ever put into the ring through its writing end, in
/// order.
pub uninterp spec fn pushed(producer: rtrb::Producer<u32>) -> Seq<u32>;

/// Everything that was ever taken out of the ring through its reading end, in
/// order.
pub uninterp spec fn popped(consumer: rtrb::Consumer<u32>) -> Seq<u32>;

/// How many free places a writing end knows of. More may have become free since;
/// none of these can be taken by another.
pub uninterp spec fn free(producer: rtrb::Producer<u32>) -> nat;

/// How many words the ring of a reading end has room for.
pub uninterp spec fn span(consumer: rtrb::Consumer<u32>) -> int;

/// How many words a reading end has seen waiting for it and has not taken. More
/// may have come since; none of these can go away.
pub uninterp spec fn ready(consumer: rtrb::Consumer<u32>) -> nat;

/// The ring that a writing end belongs to.
pub uninterp spec fn writes_to(producer: rtrb::Producer<u32>) -> int;

/// The ring that a reading end belongs to.
pub uninterp spec fn reads_from(consumer: rtrb::Consumer<u32>) -> int;

/// Whether what was put in and what was taken out are the same stream, as far
/// as both go: one is a prefix of the other.
pub open spec fn in_step(put_in: Seq<u32>, taken: Seq<u32>) -> bool {
    taken.is_prefix_of(put_in) || put_in.is_prefix_of(taken)
}

/// Whether a writing end is in step with the reading end of its ring, at
/// whatever time that is looked at.
pub open spec fn feeds_its_reader(producer: rtrb::Producer<u32>) -> bool {
    forall|consumer: rtrb::Consumer<u32>|
        reads_from(consumer) == writes_to(producer) ==> in_step(
            pushed(producer),
            #[trigger] popped(consumer),
        )
}

/// Whether a reading end is in step with the writing end of its ring, at
/// whatever time that is looked at.
pub open spec fn follows_its_writer(consumer: rtrb::Consumer<u32>) -> bool {
    forall|producer: rtrb::Producer<u32>|
        writes_to(producer) == reads_from(consumer) ==> in_step(
            #[trigger] pushed(producer),
            popped(consumer),
        )
}

/// `rtrb::RingBuffer::new`: both ends of a ring with room for `capacity`
/// words, through which nothing has passed yet. The ring allocates four bytes
/// for each word, which must be a size that an allocation can have.
#[verifier::external_body]
fn ring_of(capacity: usize) -> (r: (rtrb::Producer<u32>, rtrb::Consumer<u32>))
    requires
        capacity * 4 <= isize::MAX,
    ensures
        pushed(r.0) == Seq::<u32>::empty(),
        popped(r.1) == Seq::<u32>::empty(),
        free(r.0) == capacity,
        span(r.1) == capacity,
        ready(r.1) == 0,
        writes_to(r.0) == reads_from(r.1),
{
    rtrb::RingBuffer::new(capacity)
}

/// `rtrb::Producer::push`: puts a word in, or hands it back when the ring is
/// full. Which of the two depends on how far the other end has read, but a
/// place that is known to be free is there to be filled. What was put in is what
/// the other end of the ring takes out, in order.
#[verifier::external_body]
fn push(producer: &mut rtrb::Producer<u32>, word: u32) -> (r: Result<(), u32>)
    ensures
        match r {
            Ok(()) => {
                &&& pushed(*final(producer)) == pushed(*old(producer)).push(word)
                &&& free(*final(producer)) + 1 >= free(*old(producer))
            },
            Err(back) => {
                &&& back == word
                &&& pushed(*final(producer)) == pushed(*old(producer))
                &&& free(*old(producer)) == 0
                &&& free(*final(producer)) == 0
            },
        },
        writes_to(*final(producer)) == writes_to(*old(producer)),
        feeds_its_reader(*final(producer)),
{
    match producer.push(word) {
        Ok(()) => Ok(()),
        Err(rtrb::PushError::Full(back)) => Err(back),
    }
}

/// `rtrb::Consumer::slots`: looks how many words can be read. The other end may
/// add to them at any time, so the number is known to be no less than what was
/// seen before and no more than the room. What was taken out so far is what the
/// other end of the ring put in, in order.
#[verifier::external_body]
fn slots(consumer: &mut rtrb::Consumer<u32>) -> (r: usize)
    ensures
        ready(*old(consumer)) <= r <= span(*old(consumer)),
        ready(*final(consumer)) == r,
        popped(*final(consumer)) == popped(*old(consumer)),
        span(*final(consumer)) == span(*old(consumer)),
        reads_from(*final(consumer)) == reads_from(*old(consumer)),
        follows_its_writer(*final(consumer)),
{
    consumer.slots()
}

/// `rtrb::Consumer::read_chunk` with `ReadChunk::as_slices` and
/// `ReadChunk::commit_all`: takes the next `n` words out, or none when there
/// are fewer. Words that were seen waiting are there to be taken. What was taken
/// out is what the other end of the ring put in, in order. How far the other end
/// is meanwhile is left unsaid, since it moves on its own.
#[verifier::external_body]
fn read(consumer: &mut rtrb::Consumer<u32>, n: usize) -> (r: Option<Vec<u32>>)
    ensures
        match r {
            Some(words) => {
                &&& words@.len() == n <= span(*old(consumer))
                &&& popped(*final(consumer)) == popped(*old(consumer)) + words@
                &&& ready(*final(consumer)) + n >= ready(*old(consumer))
            },
            None => {
                &&& popped(*final(consumer)) == popped(*old(consumer))
                &&& ready(*old(consumer)) <= ready(*final(consumer)) < n
            },
        },
        span(*final(consumer)) == span(*old(consumer)),
        reads_from(*final(consumer)) == reads_from(*old(consumer)),
        follows_its_writer(*final(consumer)),
{
    match consumer.read_chunk(n) {
        Ok(chunk) => {
            let (first, second) = chunk.as_slices();
            let mut words = first.to_vec();
            words.extend_from_slice(second);
            chunk.commit_all();
            Some(words)
        },
        Err(_) => None,
    }
}

/// Seconds of audio for which the ring has room.
pub const RING_SECS: u64 = 6;

/// The size of the ring for a device.
pub open spec fn ring_size(sample_rate: int, channels: int) -> int {
    sample_rate * channels * RING_SECS
}

/// A ring with room for six seconds of interleaved audio.
pub fn capture_ring(sample_rate: u32, channels: u16) -> (r: (
    rtrb::Producer<u32>,
    rtrb::Consumer<u32>,
))
    requires
        ring_size(sample_rate as int, channels as int) * 4 <= isize::MAX,
    ensures
        pushed(r.0) == Seq::<u32>::empty(),
        popped(r.1) == Seq::<u32>::empty(),
        free(r.0) == ring_size(sample_rate as int, channels as int),
        span(r.1) == ring_size(sample_rate as int, channels as int),
        ready(r.1) == 0,
        writes_to(r.0) == reads_from(r.1),
{
    proof {
        assert(0 <= sample_rate as int * channels as int <= 0xffff_ffff * 0xffff)
            by (nonlinear_arith)
            requires
                0 <= sample_rate <= 0xffff_ffff,
                0 <= channels <= 0xffff,
        ;
        assert(ring_size(sample_rate as int, channels as int) == sample_rate as int
            * channels as int * 6);
    }
    let size: u64 = sample_rate as u64 * channels as u64 * RING_SECS;
    ring_of(size as usize)
}

/// The words that were kept, in order.
pub open spec fn selected(words: Seq<u32>, kept: Seq<bool>) -> Seq<u32>
    decreases words.len(),
{
    if words.len() == 0 {
        Seq::empty()
    } else if kept.last() {
        selected(words.drop_last(), kept.drop_last()).push(words.last())
    } else {
        selected(words.drop_last(), kept.drop_last())
    }
}

/// How many words were refused.
pub open spec fn refused(kept: Seq<bool>) -> int
    decreases kept.len(),
{
    if kept.len() == 0 {
        0
    } else {
        refused(kept.drop_last()) + if kept.last() {
            0int
        } else {
            1int
        }
    }
}

/// The ring has room for six seconds of all channels.
pub proof fn a_ring_holds_six_seconds(sample_rate: int, channels: int)
    ensures
        ring_size(sample_rate, channels) == 6 * (sample_rate * channels),
{
    assert(sample_rate * channels * 6 == 6 * (sample_rate * channels)) by (nonlinear_arith);
    assert(sample_rate * channels * RING_SECS == sample_rate * channels * 6);
}

/// How many of some words are kept.
pub open spec fn count_kept(kept: Seq<bool>) -> nat
    decreases kept.len(),
{
    if kept.len() == 0 {
        0
    } else {
        count_kept(kept.drop_last()) + if kept.last() {
            1nat
        } else {
            0nat
        }
    }
}

/// Every word is either in the ring or counted as dropped, and those in the ring
/// keep their order: the word at `i`, if it is kept, comes right after all kept
/// words before it.
pub proof fn every_word_is_kept_or_counted(words: Seq<u32>, kept: Seq<bool>, i: int)
    requires
        words.len() == kept.len(),
        0 <= i < words.len(),
    ensures
        selected(words, kept).len() + refused(kept) == words.len(),
        selected(words, kept).len() == count_kept(kept),
        kept[i] ==> count_kept(kept.take(i)) < selected(words, kept).len() && selected(
            words,
            kept,
        )[count_kept(kept.take(i)) as int] == words[i],
    decreases words.len(),
{
    let w = words.drop_last();
    let k = kept.drop_last();
    if i < words.len() - 1 {
        every_word_is_kept_or_counted(w, k, i);
        assert(k.take(i) =~= kept.take(i));
    } else {
        if w.len() > 0 {
            every_word_is_kept_or_counted(w, k, 0);
        } else {
            assert(selected(w, k).len() == 0 && refused(k) == 0 && count_kept(k) == 0);
        }
        assert(kept.take(i) =~= k);
    }
}

/// Offers words to the ring one by one and counts those that found it full.
/// The others are in the ring, in order. None is refused as long as places are
/// known to be free.
pub fn offer(producer: &mut rtrb::Producer<u32>, words: &[u32]) -> (dropped: usize)
    ensures
        exists|kept: Seq<bool>|
            {
                &&& kept.len() == words@.len()
                &&& pushed(*final(producer)) == pushed(*old(producer)) + #[trigger] selected(
                    words@,
                    kept,
                )
                &&& dropped == refused(kept)
                &&& forall|i: int|
                    0 <= i < words@.len() && i < free(*old(producer)) ==> #[trigger] kept[i]
            },
        words@.len() <= free(*old(producer)) ==> dropped == 0 && pushed(*final(producer))
            == pushed(*old(producer)) + words@,
        free(*final(producer)) + words@.len() >= free(*old(producer)),
        writes_to(*final(producer)) == writes_to(*old(producer)),
        words@.len() > 0 ==> feeds_its_reader(*final(producer)),
{
    let mut dropped: usize = 0;
    let mut i: usize = 0;
    let ghost mut kept: Seq<bool> = Seq::empty();
    assert(pushed(*old(producer)) + selected(words@.take(0), kept) =~= pushed(*old(producer)));
    assert(pushed(*old(producer)) + words@.take(0) =~= pushed(*old(producer)));
    while i < words.len()
        invariant
            i <= words@.len(),
            kept.len() == i,
            dropped == refused(kept),
            dropped <= i,
            free(*producer) + i >= free(*old(producer)),
            writes_to(*producer) == writes_to(*old(producer)),
            i > 0 ==> feeds_its_reader(*producer),
            words@.len() <= free(*old(producer)) ==> dropped == 0 && pushed(*producer) == pushed(
                *old(producer),
            ) + words@.take(i as int),
            pushed(*producer) == pushed(*old(producer)) + selected(words@.take(i as int), kept),
            forall|k: int| 0 <= k < i && k < free(*old(producer)) ==> #[trigger] kept[k],
        decreases words@.len() - i,
    {
        let ghost earlier = kept;
        let ghost seen = words@.take(i as int);
        let r = push(producer, words[i]);
        proof {
            kept = kept.push(r is Ok);
            assert(kept.drop_last() =~= earlier);
            assert(words@.take(i + 1).drop_last() =~= seen);
            assert(words@.take(i + 1).last() == words@[i as int]);
            assert(pushed(*old(producer)) + words@.take(i + 1) =~= (pushed(*old(producer))
                + seen).push(words@[i as int]));
            assert(pushed(*producer) =~= pushed(*old(producer)) + selected(
                words@.take(i + 1),
                kept,
            ));
        }
        if r.is_err() {
            dropped += 1;
        }
        i += 1;
    }
    assert(words@.take(i as int) =~= words@);
    dropped
}

/// Takes a block of `n` words off the ring, or nothing as long as there are
/// fewer.
pub fn take_block(consumer: &mut rtrb::Consumer<u32>, n: usize) -> (r: Option<Vec<u32>>)
    ensures
        match r {
            Some(words) => {
                &&& words@.len() == n <= span(*old(consumer))
                &&& popped(*final(consumer)) == popped(*old(consumer)) + words@
                &&& ready(*final(consumer)) + n >= ready(*old(consumer))
            },
            None => {
                &&& popped(*final(consumer)) == popped(*old(consumer))
                &&& ready(*old(consumer)) <= ready(*final(consumer)) < n
            },
        },
        ready(*old(consumer)) >= n ==> r is Some,
        span(*final(consumer)) == span(*old(consumer)),
        reads_from(*final(consumer)) == reads_from(*old(consumer)),
        follows_its_writer(*final(consumer)),
{
    if slots(consumer) < n {
        return None;
    }
    read(consumer, n)
}

/// Words come out of a ring in the order in which they went in: the `i`th word
/// taken is the `i`th word put in.
pub proof fn words_keep_their_order(
    producer: rtrb::Producer<u32>,
    consumer: rtrb::Consumer<u32>,
    i: int,
)
    requires
        writes_to(producer) == reads_from(consumer),
        follows_its_writer(consumer) || feeds_its_reader(producer),
        0 <= i < popped(consumer).len(),
        i < pushed(producer).len(),
    ensures
        popped(consumer)[i] == pushed(producer)[i],
{
    assert(in_step(pushed(producer), popped(consumer)));
}

} // verus!
