//! Streaming traversal: batching over a dataset that only produces its
//! samples in order. Items are buffered as they arrive; a full buffer is
//! collated and emitted, and the end of the stream flushes a final short
//! batch unless `drop_last` discards it. A pure stream cannot be shuffled by
//! random access, so shuffling is a lookahead window that exchanges each
//! arrival for a uniformly drawn held-back sample.

use vstd::prelude::*;

use crate::collate::{BatchV, Collate, CollateError, Collated, collated_view};
use crate::dataloader::ConfigurationError;
use crate::sample::{Sample, views_of};
use crate::sampler::random_below;

verus! {

/// Accumulates streamed samples into batches of `batch_size` and collates
/// each full batch. The caller drives it: one `push` per streamed item, one
/// `finish` at the end of the stream.
pub struct StreamBatcher<C: Collate> {
    /// Number of samples per emitted batch; at least 1.
    pub batch_size: usize,
    /// Whether a final batch shorter than `batch_size` is discarded.
    pub drop_last: bool,
    /// Collation strategy applied to each full buffer.
    pub collate_fn: C,
    /// Samples streamed in but not yet emitted; always shorter than
    /// `batch_size`.
    pub buffer: Vec<Sample>,
}

impl<C: Collate> StreamBatcher<C> {
    pub open spec fn wf(self) -> bool {
        &&& self.batch_size >= 1
        &&& self.buffer@.len() < self.batch_size
    }

    /// An empty batcher; a `batch_size` of 0 is rejected at build time.
    pub fn new(batch_size: usize, drop_last: bool, collate_fn: C) -> (r: Result<
        Self,
        ConfigurationError,
    >)
        ensures
            batch_size == 0 ==> r == Err::<StreamBatcher<C>, ConfigurationError>(
                ConfigurationError::ZeroBatchSize,
            ),
            batch_size >= 1 ==> {
                &&& r matches Ok(s)
                &&& s.wf()
                &&& s.batch_size == batch_size
                &&& s.drop_last == drop_last
                &&& s.collate_fn == collate_fn
                &&& s.buffer@.len() == 0
            },
    {
        if batch_size == 0 {
            return Err(ConfigurationError::ZeroBatchSize);
        }
        Ok(StreamBatcher { batch_size, drop_last, collate_fn, buffer: Vec::new() })
    }

    /// Accept one streamed sample. A batch comes out exactly when this sample
    /// fills the buffer; it collates the buffered samples in arrival order.
    pub fn push(&mut self, item: Sample) -> (r: Option<Result<Collated, CollateError>>)
        requires
            old(self).wf(),
        ensures
            final(self).wf(),
            final(self).batch_size == old(self).batch_size,
            final(self).drop_last == old(self).drop_last,
            final(self).collate_fn == old(self).collate_fn,
            old(self).buffer@.len() + 1 == old(self).batch_size ==> {
                &&& final(self).buffer@.len() == 0
                &&& r matches Some(out)
                &&& (match out {
                    Ok(c) => old(self).collate_fn.collated(
                        views_of(old(self).buffer@.push(item)),
                    ) == Ok::<BatchV, CollateError>(collated_view(c)),
                    Err(e) => old(self).collate_fn.collated(
                        views_of(old(self).buffer@.push(item)),
                    ) == Err::<BatchV, CollateError>(e),
                })
            },
            old(self).buffer@.len() + 1 < old(self).batch_size ==> r is None && final(self).buffer@
                == old(self).buffer@.push(item),
    {
        self.buffer.push(item);
        if self.buffer.len() == self.batch_size {
            let mut full: Vec<Sample> = Vec::new();
            core::mem::swap(&mut self.buffer, &mut full);
            Some(self.collate_fn.collate(full))
        } else {
            None
        }
    }

    /// End of the stream: flush the buffered samples as one final short
    /// batch, unless the buffer is empty or `drop_last` discards it.
    pub fn finish(&mut self) -> (r: Option<Result<Collated, CollateError>>)
        requires
            old(self).wf(),
        ensures
            final(self).wf(),
            final(self).batch_size == old(self).batch_size,
            final(self).drop_last == old(self).drop_last,
            final(self).collate_fn == old(self).collate_fn,
            final(self).buffer@.len() == 0,
            old(self).buffer@.len() == 0 || old(self).drop_last ==> r is None,
            old(self).buffer@.len() >= 1 && !old(self).drop_last ==> {
                &&& r matches Some(out)
                &&& (match out {
                    Ok(c) => old(self).collate_fn.collated(views_of(old(self).buffer@)) == Ok::<
                        BatchV,
                        CollateError,
                    >(collated_view(c)),
                    Err(e) => old(self).collate_fn.collated(views_of(old(self).buffer@)) == Err::<
                        BatchV,
                        CollateError,
                    >(e),
                })
            },
    {
        let mut rest: Vec<Sample> = Vec::new();
        core::mem::swap(&mut self.buffer, &mut rest);
        if rest.len() == 0 || self.drop_last {
            None
        } else {
            Some(self.collate_fn.collate(rest))
        }
    }
}

/// Multiset effect of removing position `j` by swapping the last element in:
/// exactly one occurrence of the removed value leaves.
proof fn lemma_swap_remove_multiset(s: Seq<Sample>, j: int)
    requires
        0 <= j < s.len(),
    ensures
        s.update(j, s.last()).drop_last().to_multiset() == s.to_multiset().remove(s[j]),
{
    broadcast use vstd::seq_lib::to_multiset_update;
    broadcast use vstd::seq_lib::group_to_multiset_ensures;

    let t = s.update(j, s.last());
    assert(t.drop_last() =~= t.remove(t.len() - 1));
    assert(t[t.len() - 1] == s.last());
    assert(s.to_multiset().contains(s[j]));
    assert(s.to_multiset().contains(s.last()));
    assert(t.drop_last().to_multiset() =~= s.to_multiset().remove(s[j]));
}

/// A lookahead window that shuffles a pure stream: samples flow in one at a
/// time, and once the window is full each arrival pushes one sample out,
/// chosen uniformly from the window. Whatever the random draws take out, no
/// sample is lost and none invented: the window plus the emissions always
/// hold exactly what flowed in.
pub struct ShuffleBuffer {
    /// How many samples the window holds back; 0 passes samples through.
    pub capacity: usize,
    /// The samples held back, in arrival order.
    pub window: Vec<Sample>,
}

impl ShuffleBuffer {
    pub open spec fn wf(self) -> bool {
        self.window@.len() <= self.capacity
    }

    /// An empty window of the given lookahead size.
    pub fn new(capacity: usize) -> (r: Self)
        ensures
            r.wf(),
            r.capacity == capacity,
            r.window@.len() == 0,
    {
        ShuffleBuffer { capacity, window: Vec::new() }
    }

    /// Accept one streamed sample. While the window still fills, nothing
    /// comes out; once it is full, one sample drawn uniformly from the window
    /// comes out in exchange.
    pub fn push(&mut self, item: Sample) -> (r: Option<Sample>)
        requires
            old(self).wf(),
        ensures
            final(self).wf(),
            final(self).capacity == old(self).capacity,
            old(self).window@.len() < old(self).capacity ==> r is None && final(self).window@
                .to_multiset() == old(self).window@.to_multiset().insert(item),
            old(self).window@.len() == old(self).capacity ==> {
                &&& r matches Some(s) && final(self).window@.to_multiset().insert(s)
                    == old(self).window@.to_multiset().insert(item)
                &&& final(self).window@.len() == old(self).window@.len()
            },
    {
        broadcast use vstd::seq_lib::group_to_multiset_ensures;

        if self.window.len() < self.capacity {
            self.window.push(item);
            None
        } else if self.capacity == 0 {
            Some(item)
        } else {
            let j = random_below(self.window.len());
            let ghost w0 = self.window@;
            self.window.push(item);
            let ghost w1 = self.window@;
            let s = self.window.swap_remove(j);
            proof {
                lemma_swap_remove_multiset(w1, j as int);
                assert(w1[j as int] == w0[j as int]);
                assert(w1.to_multiset() == w0.to_multiset().insert(item));
                assert(w0.to_multiset().contains(w0[j as int]));
                assert(self.window@.to_multiset().insert(s) =~= w0.to_multiset().insert(item));
            }
            Some(s)
        }
    }

    /// Hand out one of the held-back samples, drawn uniformly, once the
    /// stream itself is exhausted; `None` when the window is empty.
    pub fn next_remaining(&mut self) -> (r: Option<Sample>)
        requires
            old(self).wf(),
        ensures
            final(self).wf(),
            final(self).capacity == old(self).capacity,
            old(self).window@.len() == 0 ==> r is None && *final(self) == *old(self),
            old(self).window@.len() >= 1 ==> {
                &&& r matches Some(s) && final(self).window@.to_multiset().insert(s)
                    == old(self).window@.to_multiset()
                &&& final(self).window@.len() == old(self).window@.len() - 1
            },
    {
        broadcast use vstd::seq_lib::group_to_multiset_ensures;

        if self.window.len() == 0 {
            return None;
        }
        let j = random_below(self.window.len());
        let ghost w0 = self.window@;
        let s = self.window.swap_remove(j);
        proof {
            lemma_swap_remove_multiset(w0, j as int);
            assert(w0.to_multiset().contains(w0[j as int]));
            assert(self.window@.to_multiset().insert(s) =~= w0.to_multiset());
        }
        Some(s)
    }
}

} // verus!
