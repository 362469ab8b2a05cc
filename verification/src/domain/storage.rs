//! The store of one series: its newest samples, oldest first, in a ring of
//! fixed capacity.

use vstd::prelude::*;
use circular_buffer::CircularBuffer;
use crate::domain::models::LONGEST_WINDOW;
use crate::domain::sample::Sample;

verus! {

/// The ring buffer of the crate `circular_buffer`. Nothing inside it is seen
/// here: what it holds goes by the name [`buffered`].
#[verifier::external_type_specification]
#[verifier::external_body]
#[verifier::reject_recursive_types(T)]
pub struct ExCircularBuffer<const N: usize, T>(CircularBuffer<N, T>);

/// The samples that a ring buffer holds, from its front to its back.
pub uninterp spec fn buffered(buffer: CircularBuffer<LONGEST_WINDOW, Sample>) -> Seq<Sample>;

/// The newest `count` samples of `samples`, or all of them where there are
/// no more.
pub open spec fn newest(samples: Seq<Sample>, count: nat) -> Seq<Sample> {
    if samples.len() <= count {
        samples
    } else {
        samples.subrange(samples.len() - count, samples.len() as int)
    }
}

/// The samples at the places `from` up to `to`, the first left out where none
/// is at `from`, and the last where `to` is beyond the end.
pub open spec fn part(samples: Seq<Sample>, from: nat, to: nat) -> Seq<Sample> {
    let start = if from < samples.len() {
        from
    } else {
        samples.len()
    };
    let end = if to < start {
        start
    } else if to < samples.len() {
        to
    } else {
        samples.len()
    };
    samples.subrange(start as int, end as int)
}

/// `CircularBuffer::boxed`: a buffer on the heap that holds nothing yet.
#[verifier::external_body]
fn empty_buffer() -> (buffer: Box<CircularBuffer<LONGEST_WINDOW, Sample>>)
    ensures
        buffered(*buffer) == Seq::<Sample>::empty(),
{
    CircularBuffer::boxed()
}

/// `CircularBuffer::len`: the number of samples held, which is never above
/// the capacity.
#[verifier::external_body]
fn buffer_len(buffer: &CircularBuffer<LONGEST_WINDOW, Sample>) -> (len: usize)
    ensures
        len == buffered(*buffer).len(),
        len <= LONGEST_WINDOW,
{
    buffer.len()
}

/// `CircularBuffer::get`: the sample at `index`, counted from the front,
/// and nothing where the buffer holds no more than `index` samples.
#[verifier::external_body]
fn buffer_get(buffer: &CircularBuffer<LONGEST_WINDOW, Sample>, index: usize) -> (sample: Option<
    Sample,
>)
    ensures
        sample == if index < buffered(*buffer).len() {
            Some(buffered(*buffer)[index as int])
        } else {
            None
        },
{
    buffer.get(index).copied()
}

/// `Extend::extend` of `CircularBuffer`: each sample of the batch in turn is
/// pushed to the back, and once the buffer is full each push drops the
/// sample at the front. So the buffer ends holding the newest samples of
/// what it held followed by the batch, as many as its capacity.
#[verifier::external_body]
fn buffer_extend(buffer: &mut CircularBuffer<LONGEST_WINDOW, Sample>, batch: Vec<Sample>)
    ensures
        buffered(*final(buffer)) == newest(buffered(*old(buffer)) + batch@, LONGEST_WINDOW as nat),
{
    buffer.extend(batch)
}

/// The newest samples of one series, oldest first: at most
/// [`LONGEST_WINDOW`] of them.
pub struct Storage {
    buffer: Box<CircularBuffer<LONGEST_WINDOW, Sample>>,
}

impl View for Storage {
    type V = Seq<Sample>;

    closed spec fn view(&self) -> Seq<Sample> {
        buffered(*self.buffer)
    }
}

impl Storage {
    /// A store that holds nothing. Its room is set aside at once.
    pub fn new() -> (storage: Storage)
        ensures
            storage@ == Seq::<Sample>::empty(),
    {
        Storage { buffer: empty_buffer() }
    }

    /// The number of samples held.
    pub fn len(&self) -> (len: usize)
        ensures
            len == self@.len(),
            len <= LONGEST_WINDOW,
    {
        buffer_len(&self.buffer)
    }

    /// Appends a batch, oldest sample first. Where the store is full, the
    /// oldest samples make room.
    pub fn append(&mut self, batch: Vec<Sample>)
        ensures
            final(self)@ == newest(old(self)@ + batch@, LONGEST_WINDOW as nat),
    {
        buffer_extend(&mut self.buffer, batch);
    }

    /// The samples at the places `from` up to `to`, counted from the oldest;
    /// places that the store does not have are left out.
    pub fn range(&self, from: usize, to: usize) -> (samples: Vec<Sample>)
        ensures
            samples@ == part(self@, from as nat, to as nat),
    {
        let len: usize = self.len();
        let start: usize = if from < len {
            from
        } else {
            len
        };
        let end: usize = if to < start {
            start
        } else if to < len {
            to
        } else {
            len
        };
        let mut samples: Vec<Sample> = Vec::new();
        let mut i: usize = start;
        while i < end
            invariant
                start <= i <= end <= len,
                len == self@.len(),
                samples@ == self@.subrange(start as int, i as int),
            decreases end - i,
        {
            match buffer_get(&self.buffer, i) {
                Some(sample) => {
                    samples.push(sample);
                },
                None => {},
            }
            proof {
                assert(self@.subrange(start as int, i + 1) =~= self@.subrange(
                    start as int,
                    i as int,
                ).push(self@[i as int]));
            }
            i = i + 1;
        }
        samples
    }

    /// The newest `count` samples, oldest first, or all where there are no
    /// more.
    pub fn recent(&self, count: usize) -> (samples: Vec<Sample>)
        ensures
            samples@ == newest(self@, count as nat),
    {
        let len: usize = self.len();
        if count >= len {
            let samples = self.range(0, len);
            proof {
                assert(self@.subrange(0, len as int) =~= self@);
            }
            samples
        } else {
            self.range(len - count, len)
        }
    }
}

} // verus!
