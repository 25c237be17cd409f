//! The data loader: an immutable configuration — dataset, batch sampler,
//! collation strategy — built once through a builder, spawning any number of
//! independent traversals, each a cursor that yields one collated batch per
//! step.

use vstd::prelude::*;

use crate::collate::{
    BatchV, Collate, CollateError, Collated, DefaultCollate, collated_view,
};
use crate::sample::{Sample, SampleV, lemma_views_of, sample_view, views_of};
use crate::sampler::{
    BatchIterator, BatchSampler, SamplerKind, index_seq, lemma_permutation_covers,
};

verus! {

broadcast use lemma_views_of;

/// Rejected configuration, detected at build time, before any traversal.
#[derive(Debug, Clone, Copy, PartialEq, Eq, Structural)]
pub enum ConfigurationError {
    /// `batch_size` was 0; it must be at least 1.
    ZeroBatchSize,
    /// Both an explicit sampler and `shuffle` were requested.
    SamplerShuffleConflict,
}

/// The views of the samples that a group of indices picks out of a dataset,
/// in index order.
pub open spec fn gathered_views(d: Seq<Sample>, idx: Seq<usize>) -> Seq<SampleV> {
    Seq::new(idx.len(), |i: int| sample_view(d[idx[i] as int]))
}

/// Combines a dataset and a batch sampler, and provides traversals over the
/// dataset's collated batches. Immutable once built.
pub struct DataLoader<C: Collate> {
    /// Dataset from which to load the data.
    pub dataset: Vec<Sample>,
    /// Yields a group of indices at a time.
    pub batch_sampler: BatchSampler,
    /// Collation strategy applied to each fetched group.
    pub collate_fn: C,
}

impl<C: Collate> DataLoader<C> {
    pub open spec fn wf(self) -> bool {
        &&& self.batch_sampler.batch_size >= 1
        &&& self.batch_sampler.length == self.dataset@.len()
    }

    /// Number of batches each traversal yields.
    pub fn len(&self) -> (r: usize)
        requires
            self.wf(),
        ensures
            r == self.batch_sampler.spec_len(),
    {
        self.batch_sampler.len()
    }

    /// A fresh, independent traversal over this loader's batches.
    pub fn iter(&self) -> (it: SingleProcessDataLoaderIter<'_, C>)
        requires
            self.wf(),
        ensures
            it.wf(),
            it.loader == self,
            it.sampler_iter.yielded == 0,
            it.num_yielded == 0,
            self.batch_sampler.sampler is Sequential ==> it.sampler_iter.indices@ == index_seq(
                self.dataset@.len() as int,
            ),
    {
        SingleProcessDataLoaderIter::new(self)
    }
}

impl DataLoader<DefaultCollate> {
    /// A builder over `dataset` with the default configuration: batch size 1,
    /// sequential order, short final batch kept, default collation.
    pub fn builder(dataset: Vec<Sample>) -> (b: Builder<DefaultCollate>)
        ensures
            b.dataset == dataset,
            b.batch_size == 1usize,
            !b.shuffle,
            !b.drop_last,
            b.sampler is None,
            b.collate_fn == DefaultCollate,
    {
        Builder {
            dataset,
            batch_size: 1,
            shuffle: false,
            drop_last: false,
            sampler: None,
            collate_fn: DefaultCollate,
        }
    }
}

/// Accumulates a loader configuration; `build` validates it.
pub struct Builder<C: Collate> {
    pub dataset: Vec<Sample>,
    pub batch_size: usize,
    pub shuffle: bool,
    pub drop_last: bool,
    pub sampler: Option<SamplerKind>,
    pub collate_fn: C,
}

impl<C: Collate> Builder<C> {
    /// The sampler a valid configuration ends up with: the explicit one if
    /// given, else random when shuffling, else sequential.
    pub open spec fn chosen_sampler(self) -> SamplerKind {
        match self.sampler {
            Some(s) => s,
            None => if self.shuffle {
                SamplerKind::Random
            } else {
                SamplerKind::Sequential
            },
        }
    }

    /// How many samples each batch holds; 0 is rejected at build time.
    pub fn batch_size(self, batch_size: usize) -> (b: Self)
        ensures
            b == (Builder { batch_size, ..self }),
    {
        Builder { batch_size, ..self }
    }

    /// Ask for a freshly shuffled order on every traversal.
    pub fn shuffle(self) -> (b: Self)
        ensures
            b == (Builder { shuffle: true, ..self }),
    {
        Builder { shuffle: true, ..self }
    }

    /// Discard a final batch shorter than `batch_size`.
    pub fn drop_last(self) -> (b: Self)
        ensures
            b == (Builder { drop_last: true, ..self }),
    {
        Builder { drop_last: true, ..self }
    }

    /// Pick the sampler explicitly; conflicts with `shuffle` at build time.
    pub fn sampler(self, sampler: SamplerKind) -> (b: Self)
        ensures
            b == (Builder { sampler: Some(sampler), ..self }),
    {
        Builder { sampler: Some(sampler), ..self }
    }

    /// Replace the collation strategy.
    pub fn collate_fn<C2: Collate>(self, collate_fn: C2) -> (b: Builder<C2>)
        ensures
            b == (Builder {
                dataset: self.dataset,
                batch_size: self.batch_size,
                shuffle: self.shuffle,
                drop_last: self.drop_last,
                sampler: self.sampler,
                collate_fn,
            }),
    {
        Builder {
            dataset: self.dataset,
            batch_size: self.batch_size,
            shuffle: self.shuffle,
            drop_last: self.drop_last,
            sampler: self.sampler,
            collate_fn,
        }
    }

    /// Validate the configuration and build the loader. Fails exactly when
    /// `batch_size` is 0, or when both an explicit sampler and `shuffle` were
    /// requested; succeeds on every other configuration.
    pub fn build(self) -> (r: Result<DataLoader<C>, ConfigurationError>)
        ensures
            self.batch_size == 0 ==> r == Err::<DataLoader<C>, ConfigurationError>(
                ConfigurationError::ZeroBatchSize,
            ),
            self.batch_size >= 1 && self.shuffle && self.sampler is Some ==> r == Err::<
                DataLoader<C>,
                ConfigurationError,
            >(ConfigurationError::SamplerShuffleConflict),
            self.batch_size >= 1 && !(self.shuffle && self.sampler is Some) ==> {
                &&& r matches Ok(dl)
                &&& dl.wf()
                &&& dl.dataset == self.dataset
                &&& dl.collate_fn == self.collate_fn
                &&& dl.batch_sampler.batch_size == self.batch_size
                &&& dl.batch_sampler.drop_last == self.drop_last
                &&& dl.batch_sampler.length == self.dataset@.len()
                &&& dl.batch_sampler.sampler == self.chosen_sampler()
            },
    {
        if self.batch_size == 0 {
            return Err(ConfigurationError::ZeroBatchSize);
        }
        if self.shuffle && self.sampler.is_some() {
            return Err(ConfigurationError::SamplerShuffleConflict);
        }
        let sampler = match self.sampler {
            Some(s) => s,
            None => if self.shuffle {
                SamplerKind::Random
            } else {
                SamplerKind::Sequential
            },
        };
        let length = self.dataset.len();
        Ok(
            DataLoader {
                dataset: self.dataset,
                batch_sampler: BatchSampler {
                    sampler,
                    length,
                    batch_size: self.batch_size,
                    drop_last: self.drop_last,
                },
                collate_fn: self.collate_fn,
            },
        )
    }
}

/// One traversal over a loader's batches, with a single thread: a realized
/// index order, a cursor over its groups, and a count of batches yielded.
pub struct SingleProcessDataLoaderIter<'a, C: Collate> {
    /// The loader being traversed; never changed by the traversal.
    pub loader: &'a DataLoader<C>,
    /// The group cursor of this traversal.
    pub sampler_iter: BatchIterator,
    /// Number of batches yielded so far.
    pub num_yielded: u64,
}

impl<'a, C: Collate> SingleProcessDataLoaderIter<'a, C> {
    pub open spec fn wf(self) -> bool {
        &&& self.loader.wf()
        &&& self.sampler_iter.wf()
        &&& self.sampler_iter.batch_size == self.loader.batch_sampler.batch_size
        &&& self.sampler_iter.drop_last == self.loader.batch_sampler.drop_last
        &&& self.sampler_iter.indices@.to_multiset() == index_seq(
            self.loader.dataset@.len() as int,
        ).to_multiset()
        &&& self.num_yielded <= self.sampler_iter.yielded
    }

    /// Start a fresh traversal: realize one index order from the loader's
    /// sampler and place the cursor before the first group.
    pub fn new(loader: &'a DataLoader<C>) -> (it: Self)
        requires
            loader.wf(),
        ensures
            it.wf(),
            it.loader == loader,
            it.sampler_iter.yielded == 0,
            it.num_yielded == 0,
            loader.batch_sampler.sampler is Sequential ==> it.sampler_iter.indices@ == index_seq(
                loader.dataset@.len() as int,
            ),
    {
        SingleProcessDataLoaderIter {
            sampler_iter: loader.batch_sampler.iter(),
            num_yielded: 0,
            loader,
        }
    }

    /// Number of batches still to come; exact, and in step with `next`.
    pub fn len(&self) -> (r: usize)
        requires
            self.wf(),
        ensures
            r == self.sampler_iter.batches().len() - self.sampler_iter.yielded,
    {
        self.sampler_iter.len()
    }

    /// Exact lower and upper bound on the number of batches still to come.
    pub fn size_hint(&self) -> (r: (usize, Option<usize>))
        requires
            self.wf(),
        ensures
            r.0 == self.sampler_iter.batches().len() - self.sampler_iter.yielded,
            r.1 == Some(r.0),
    {
        self.sampler_iter.size_hint()
    }

    /// Pull the next index group from the cursor.
    pub fn next_index(&mut self) -> (r: Option<Vec<usize>>)
        requires
            old(self).wf(),
        ensures
            final(self).wf(),
            final(self).loader == old(self).loader,
            final(self).num_yielded == old(self).num_yielded,
            final(self).sampler_iter.indices == old(self).sampler_iter.indices,
            old(self).sampler_iter.yielded < old(self).sampler_iter.batches().len() ==> {
                &&& r matches Some(g) && g@ == old(self).sampler_iter.batches()[old(
                    self,
                ).sampler_iter.yielded as int] && g@.len() >= 1
                &&& final(self).sampler_iter.yielded == old(self).sampler_iter.yielded + 1
            },
            old(self).sampler_iter.yielded >= old(self).sampler_iter.batches().len() ==> r
                is None && *final(self) == *old(self),
            r matches Some(g) ==> forall|u: int|
                0 <= u < g@.len() ==> old(self).sampler_iter.indices@.contains(
                    #[trigger] g@[u],
                ),
    {
        self.sampler_iter.next()
    }

    /// Fetch and collate the batch of the next index group, or `None` once
    /// all groups are out. A collation failure is the step's result; it does
    /// not poison the traversal.
    pub fn next_data(&mut self) -> (r: Option<Result<Collated, CollateError>>)
        requires
            old(self).wf(),
        ensures
            final(self).wf(),
            final(self).loader == old(self).loader,
            final(self).num_yielded == old(self).num_yielded,
            final(self).sampler_iter.indices == old(self).sampler_iter.indices,
            old(self).sampler_iter.yielded < old(self).sampler_iter.batches().len() ==> {
                &&& r matches Some(out)
                &&& final(self).sampler_iter.yielded == old(self).sampler_iter.yielded + 1
                &&& {
                    let views = gathered_views(
                        old(self).loader.dataset@,
                        old(self).sampler_iter.batches()[old(self).sampler_iter.yielded as int],
                    );
                    match out {
                        Ok(c) => old(self).loader.collate_fn.collated(views) == Ok::<
                            BatchV,
                            CollateError,
                        >(collated_view(c)),
                        Err(e) => old(self).loader.collate_fn.collated(views) == Err::<
                            BatchV,
                            CollateError,
                        >(e),
                    }
                }
            },
            old(self).sampler_iter.yielded >= old(self).sampler_iter.batches().len() ==> r
                is None && *final(self) == *old(self),
    {
        let index = self.next_index();
        match index {
            Some(index) => {
                let dlen = self.loader.dataset.len();
                proof {
                    lemma_permutation_covers(self.sampler_iter.indices@, dlen as int);
                    let s = self.sampler_iter.indices@;
                    assert forall|u: int| 0 <= u < index@.len() implies (index@[u] as int)
                        < dlen by {
                        assert(old(self).sampler_iter.indices@.contains(index@[u]));
                        let w = choose|w: int| 0 <= w < s.len() && s[w] == index@[u];
                        assert((s[w] as int) < dlen);
                    }
                }
                let data = fetch_batch(&self.loader.dataset, &self.loader.collate_fn, &index);
                Some(data)
            },
            None => None,
        }
    }

    /// Yield the next collated batch. Exhaustion is stable: once `None` is
    /// returned the traversal no longer moves.
    pub fn next(&mut self) -> (r: Option<Result<Collated, CollateError>>)
        requires
            old(self).wf(),
        ensures
            final(self).wf(),
            final(self).loader == old(self).loader,
            final(self).sampler_iter.indices == old(self).sampler_iter.indices,
            old(self).sampler_iter.yielded < old(self).sampler_iter.batches().len() ==> {
                &&& r matches Some(out)
                &&& final(self).sampler_iter.yielded == old(self).sampler_iter.yielded + 1
                &&& final(self).num_yielded == old(self).num_yielded + 1
                &&& {
                    let views = gathered_views(
                        old(self).loader.dataset@,
                        old(self).sampler_iter.batches()[old(self).sampler_iter.yielded as int],
                    );
                    match out {
                        Ok(c) => old(self).loader.collate_fn.collated(views) == Ok::<
                            BatchV,
                            CollateError,
                        >(collated_view(c)),
                        Err(e) => old(self).loader.collate_fn.collated(views) == Err::<
                            BatchV,
                            CollateError,
                        >(e),
                    }
                }
            },
            old(self).sampler_iter.yielded >= old(self).sampler_iter.batches().len() ==> r
                is None && *final(self) == *old(self),
    {
        let data = self.next_data();
        match data {
            Some(data) => {
                self.num_yielded = self.num_yielded + 1;
                Some(data)
            },
            None => None,
        }
    }
}

/// Retrieve the sample of each index, in index order, and collate the batch
/// once. The collation sees exactly the samples the indices pick out.
pub fn fetch_batch<C: Collate>(
    dataset: &Vec<Sample>,
    collate_fn: &C,
    indices: &Vec<usize>,
) -> (r: Result<Collated, CollateError>)
    requires
        indices@.len() >= 1,
        forall|i: int| 0 <= i < indices@.len() ==> (indices@[i] as int) < dataset@.len(),
    ensures
        (match r {
            Ok(c) => collate_fn.collated(gathered_views(dataset@, indices@)) == Ok::<
                BatchV,
                CollateError,
            >(collated_view(c)),
            Err(e) => collate_fn.collated(gathered_views(dataset@, indices@)) == Err::<
                BatchV,
                CollateError,
            >(e),
        }),
{
    let n = indices.len();
    let mut batch: Vec<Sample> = Vec::new();
    let mut i: usize = 0;
    while i < n
        invariant
            i <= n,
            n == indices@.len(),
            batch@.len() == i,
            forall|i0: int| 0 <= i0 < indices@.len() ==> (indices@[i0] as int) < dataset@.len(),
            forall|u: int|
                0 <= u < i ==> sample_view(batch@[u]) == sample_view(
                    dataset@[indices@[u] as int],
                ),
        decreases n - i,
    {
        let idx = indices[i];
        let s = dataset[idx].duplicate();
        batch.push(s);
        i = i + 1;
    }
    proof {
        assert(views_of(batch@) =~= gathered_views(dataset@, indices@));
    }
    collate_fn.collate(batch)
}

/// Law: two traversals of the same loader under the sequential sampler walk
/// the same index order, so they yield the same group sequence, and each
/// group picks the same samples out of the same dataset.
pub proof fn lemma_sequential_traversals_agree<C: Collate>(
    it1: SingleProcessDataLoaderIter<C>,
    it2: SingleProcessDataLoaderIter<C>,
)
    requires
        it1.wf(),
        it2.wf(),
        it1.loader == it2.loader,
        it1.loader.batch_sampler.sampler is Sequential,
        it1.sampler_iter.indices@ == index_seq(it1.loader.dataset@.len() as int),
        it2.sampler_iter.indices@ == index_seq(it2.loader.dataset@.len() as int),
    ensures
        it1.sampler_iter.batches() == it2.sampler_iter.batches(),
        forall|k: int|
            0 <= k < it1.sampler_iter.batches().len() ==> gathered_views(
                it1.loader.dataset@,
                #[trigger] it1.sampler_iter.batches()[k],
            ) == gathered_views(it2.loader.dataset@, it2.sampler_iter.batches()[k]),
{
}

} // verus!
