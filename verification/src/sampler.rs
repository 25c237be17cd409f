//! Index-order generation and batching: samplers produce a permutation of
//! `0..n`, and a batch sampler groups that permutation into fixed-size chunks.

use vstd::prelude::*;
use vstd::pervasive::VecAdditionalExecFns;

use crate::num_batches;

verus! {

/// The identity index order `0, 1, ..., n-1`.
pub open spec fn index_seq(n: int) -> Seq<usize>
    recommends
        0 <= n,
{
    Seq::new(n as nat, |i: int| i as usize)
}

/// Relies on `rand::random_range`: returns a value uniformly drawn from the
/// non-empty range `0..bound`. Only the range bound is stated; nothing else
/// can hold of a random draw.
#[verifier::external_body]
pub(crate) fn random_below(bound: usize) -> (r: usize)
    requires
        bound >= 1,
    ensures
        r < bound,
{
    rand::random_range(0..bound)
}

/// Fisher–Yates shuffle: permutes `v` in place; the multiset of elements is
/// preserved, whatever values the random draws take.
fn shuffle(v: &mut Vec<usize>)
    ensures
        final(v)@.to_multiset() == old(v)@.to_multiset(),
        final(v)@.len() == old(v)@.len(),
{
    proof {
        broadcast use vstd::seq_lib::group_seq_properties;
    }
    let n = v.len();
    let mut i: usize = n;
    while i > 1
        invariant
            i <= n,
            n == v@.len(),
            v@.to_multiset() == old(v)@.to_multiset(),
        decreases i,
    {
        let j = random_below(i);
        let a = v[i - 1];
        let b = v[j];
        let ghost s0 = v@;
        v.set(i - 1, b);
        let ghost s1 = v@;
        v.set(j, a);
        proof {
            broadcast use vstd::seq_lib::to_multiset_update;
            broadcast use vstd::seq_lib::group_to_multiset_ensures;
            assert(s1.to_multiset() == s0.to_multiset().insert(b).remove(a));
            assert(v@.to_multiset() == s1.to_multiset().insert(a).remove(s1[j as int]));
            if j == i - 1 {
                assert(s1[j as int] == b);
            } else {
                assert(s1[j as int] == s0[j as int]);
                assert(s1[j as int] == b);
            }
            assert(s0.to_multiset().contains(a));
            assert(s0.to_multiset().contains(b));
            assert(v@.to_multiset() =~= s0.to_multiset());
        }
        i = i - 1;
    }
    proof {
        vstd::seq_lib::to_multiset_len(v@);
        vstd::seq_lib::to_multiset_len(old(v)@);
    }
}

/// Which index order a traversal uses: the identity order, or a fresh uniform
/// permutation per traversal.
#[derive(Debug, Clone, Copy, PartialEq, Eq, Structural)]
pub enum SamplerKind {
    Sequential,
    Random,
}

impl SamplerKind {
    /// Realize one index order over a dataset of length `len`. Every sampler
    /// yields each index in `[0, len)` exactly once; the sequential sampler
    /// yields them in increasing order.
    pub fn sample(&self, len: usize) -> (r: Vec<usize>)
        ensures
            r@.to_multiset() == index_seq(len as int).to_multiset(),
            r@.len() == len,
            self is Sequential ==> r@ == index_seq(len as int),
    {
        let mut v: Vec<usize> = Vec::new();
        let mut i: usize = 0;
        while i < len
            invariant
                i <= len,
                v@ =~= index_seq(len as int).subrange(0, i as int),
            decreases len - i,
        {
            v.push(i);
            i = i + 1;
        }
        proof {
            assert(v@ =~= index_seq(len as int));
        }
        match self {
            SamplerKind::Sequential => v,
            SamplerKind::Random => {
                shuffle(&mut v);
                v
            },
        }
    }
}

/// The index groups that a traversal over index order `idx` yields at batch
/// size `b`: group `k` is `idx[k*b .. min((k+1)*b, len)]`, and a final short
/// group exists only when `drop_last` is false and `b` does not divide `len`.
pub open spec fn spec_batches(idx: Seq<usize>, b: int, drop_last: bool) -> Seq<Seq<usize>>
    recommends
        b >= 1,
{
    Seq::new(
        num_batches(idx.len() as int, b, drop_last) as nat,
        |k: int|
            idx.subrange(
                k * b,
                if (k + 1) * b <= idx.len() {
                    (k + 1) * b
                } else {
                    idx.len() as int
                },
            ),
    )
}

/// Bounds that pin `num_batches` as the exact ceiling (or floor, under
/// `drop_last`) of `n / b`.
pub proof fn lemma_num_batches_bounds(n: int, b: int)
    requires
        b >= 1,
        n >= 0,
    ensures
        num_batches(n, b, true) * b <= n,
        n < (num_batches(n, b, true) + 1) * b,
        num_batches(n, b, false) * b >= n,
        n >= 1 ==> (num_batches(n, b, false) - 1) * b < n,
        n == 0 ==> num_batches(n, b, false) == 0,
        num_batches(n, b, true) >= 0,
        num_batches(n, b, false) >= 0,
        num_batches(n, b, true) <= num_batches(n, b, false),
        n >= 1 ==> num_batches(n, b, false) >= 1,
        num_batches(n, b, false) <= n,
        num_batches(n, b, true) <= n,
{
    let q = n / b;
    let r = n % b;
    vstd::arithmetic::div_mod::lemma_fundamental_div_mod(n, b);
    vstd::arithmetic::div_mod::lemma_mod_bound(n, b);
    assert(n == b * q + r);
    vstd::arithmetic::mul::lemma_mul_is_commutative(b, q);
    vstd::arithmetic::mul::lemma_mul_is_distributive_add_other_way(b, q, 1);

    let c = (n + b - 1) / b;
    let rc = (n + b - 1) % b;
    vstd::arithmetic::div_mod::lemma_fundamental_div_mod(n + b - 1, b);
    vstd::arithmetic::div_mod::lemma_mod_bound(n + b - 1, b);
    assert(n + b - 1 == b * c + rc);
    vstd::arithmetic::mul::lemma_mul_is_commutative(b, c);
    vstd::arithmetic::mul::lemma_mul_is_distributive_sub_other_way(b, c, 1);
    assert((c - 1) * b == c * b - b);

    vstd::arithmetic::div_mod::lemma_div_pos_is_pos(n, b);
    vstd::arithmetic::div_mod::lemma_div_pos_is_pos(n + b - 1, b);
    vstd::arithmetic::mul::lemma_mul_is_distributive_add_other_way(b, c, 1);
    if q > c {
        vstd::arithmetic::mul::lemma_mul_inequality(c + 1, q, b);
        assert((c + 1) * b == c * b + b);
    }
    if c >= 1 {
        vstd::arithmetic::mul::lemma_mul_inequality(1, b, c - 1);
        vstd::arithmetic::mul::lemma_mul_is_commutative(b, c - 1);
        assert(c - 1 <= (c - 1) * b);
    }
    if n >= 1 && c < 1 {
        assert(c * b <= 0) by {
            vstd::arithmetic::mul::lemma_mul_inequality(c, 0, b);
        }
    }
}

/// Exact batch count, computed without overflow.
pub fn batch_count(n: usize, b: usize, drop_last: bool) -> (r: usize)
    requires
        b >= 1,
    ensures
        r == num_batches(n as int, b as int, drop_last),
{
    if drop_last {
        n / b
    } else if n == 0 {
        proof {
            lemma_num_batches_bounds(n as int, b as int);
        }
        0
    } else {
        proof {
            broadcast use vstd::arithmetic::div_mod::lemma_div_plus_one;

            assert(1 + (n - 1) / (b as int) == ((b as int) + (n - 1)) / (b as int));
            vstd::arithmetic::div_mod::lemma_div_is_ordered(
                0,
                n as int - 1,
                b as int,
            );
        }
        (n - 1) / b + 1
    }
}

/// Copy of the elements of `src` at positions `start .. start + take`.
fn copy_range(src: &Vec<usize>, start: usize, take: usize) -> (g: Vec<usize>)
    requires
        start + take <= src@.len(),
    ensures
        g@ == src@.subrange(start as int, start as int + take as int),
{
    let n = src.len();
    let mut g: Vec<usize> = Vec::new();
    let mut k: usize = 0;
    while k < take
        invariant
            k <= take,
            n == src@.len(),
            start + take <= n,
            g@ =~= src@.subrange(start as int, start as int + k as int),
        decreases take - k,
    {
        let x = src[start + k];
        g.push(x);
        k = k + 1;
    }
    proof {
        assert(g@ =~= src@.subrange(start as int, start as int + take as int));
    }
    g
}

/// Groups a sampler's index order over a dataset of a known length into
/// batches of `batch_size`, dropping the final short batch when `drop_last`
/// is set.
#[derive(Debug, Clone, Copy, PartialEq, Eq, Structural)]
pub struct BatchSampler {
    /// Index-order generator consumed afresh by each traversal.
    pub sampler: SamplerKind,
    /// Length of the dataset being traversed.
    pub length: usize,
    /// Number of indices per group; at least 1.
    pub batch_size: usize,
    /// Whether a final group shorter than `batch_size` is discarded.
    pub drop_last: bool,
}

impl BatchSampler {
    pub open spec fn wf(self) -> bool {
        self.batch_size >= 1
    }

    /// Exact number of index groups a traversal yields.
    pub open spec fn spec_len(self) -> int {
        num_batches(self.length as int, self.batch_size as int, self.drop_last)
    }

    /// Number of batches: `ceil(length / batch_size)`, or the floor under
    /// `drop_last`.
    pub fn len(&self) -> (r: usize)
        requires
            self.wf(),
        ensures
            r == self.spec_len(),
    {
        batch_count(self.length, self.batch_size, self.drop_last)
    }

    /// Start one traversal: realize a fresh index order and a cursor over its
    /// groups.
    pub fn iter(&self) -> (it: BatchIterator)
        requires
            self.wf(),
        ensures
            it.wf(),
            it.yielded == 0,
            it.pos == 0,
            it.batch_size == self.batch_size,
            it.drop_last == self.drop_last,
            it.indices@.len() == self.length,
            it.indices@.to_multiset() == index_seq(self.length as int).to_multiset(),
            self.sampler is Sequential ==> it.indices@ == index_seq(self.length as int),
            it.batches().len() == self.spec_len(),
    {
        let indices = self.sampler.sample(self.length);
        BatchIterator { indices, batch_size: self.batch_size, drop_last: self.drop_last, pos: 0, yielded: 0 }
    }
}

/// Cursor over the index groups of one traversal: a realized index order and
/// the count of groups already yielded.
#[derive(Debug)]
pub struct BatchIterator {
    /// The index order this traversal walks, fixed at creation.
    pub indices: Vec<usize>,
    /// Number of indices per group; at least 1.
    pub batch_size: usize,
    /// Whether a final group shorter than `batch_size` is discarded.
    pub drop_last: bool,
    /// Position in `indices` of the next group's first element.
    pub pos: usize,
    /// Number of groups yielded so far.
    pub yielded: usize,
}

impl BatchIterator {
    /// The full group sequence this traversal walks.
    pub open spec fn batches(self) -> Seq<Seq<usize>> {
        spec_batches(self.indices@, self.batch_size as int, self.drop_last)
    }

    pub open spec fn wf(self) -> bool {
        &&& self.batch_size >= 1
        &&& self.yielded <= self.batches().len()
        &&& self.pos == if self.yielded * self.batch_size <= self.indices@.len() {
            self.yielded * self.batch_size
        } else {
            self.indices@.len() as int
        }
    }

    /// Number of groups still to come.
    pub fn len(&self) -> (r: usize)
        requires
            self.wf(),
        ensures
            r == self.batches().len() - self.yielded,
    {
        let total = batch_count(self.indices.len(), self.batch_size, self.drop_last);
        total - self.yielded
    }

    /// Lower and upper bound on the number of groups still to come; both are
    /// exact, since the group count is known in advance.
    pub fn size_hint(&self) -> (r: (usize, Option<usize>))
        requires
            self.wf(),
        ensures
            r.0 == self.batches().len() - self.yielded,
            r.1 == Some(r.0),
    {
        let n = self.len();
        (n, Some(n))
    }

    /// Yield the next index group, or `None` once all groups are out.
    /// Exhaustion is stable: once `None` is returned the cursor no longer
    /// moves.
    pub fn next(&mut self) -> (r: Option<Vec<usize>>)
        requires
            old(self).wf(),
        ensures
            final(self).wf(),
            final(self).indices == old(self).indices,
            final(self).batch_size == old(self).batch_size,
            final(self).drop_last == old(self).drop_last,
            old(self).yielded < old(self).batches().len() ==> {
                &&& r matches Some(g) && g@ == old(self).batches()[old(self).yielded as int]
                    && g@.len() >= 1
                &&& final(self).yielded == old(self).yielded + 1
            },
            r matches Some(g) ==> forall|u: int|
                0 <= u < g@.len() ==> old(self).indices@.contains(#[trigger] g@[u]),
            old(self).yielded >= old(self).batches().len() ==> r is None && *final(self)
                == *old(self),
    {
        let n = self.indices.len();
        let ghost b = self.batch_size as int;
        let ghost y = self.yielded as int;
        let ghost t = self.batches().len() as int;
        proof {
            lemma_num_batches_bounds(n as int, b);
            vstd::arithmetic::mul::lemma_mul_inequality(y, t, b);
            if y < t {
                vstd::arithmetic::mul::lemma_mul_inequality(y, t - 1, b);
                vstd::arithmetic::mul::lemma_mul_inequality(y + 1, t, b);
            }
            vstd::arithmetic::mul::lemma_mul_is_distributive_add_other_way(b, y, 1);
            assert((y + 1) * b == y * b + b);
            vstd::arithmetic::mul::lemma_mul_is_distributive_add_other_way(b, t, 1);
            assert((t + 1) * b == t * b + b);
        }
        let rem = n - self.pos;
        if rem == 0 {
            return None;
        }
        if self.drop_last && rem < self.batch_size {
            return None;
        }
        proof {
            assert(y < t);
        }
        let take = if rem < self.batch_size {
            rem
        } else {
            self.batch_size
        };
        let start = self.pos;
        let g = copy_range(&self.indices, start, take);
        proof {
            let end = if (y + 1) * b <= self.indices@.len() {
                (y + 1) * b
            } else {
                self.indices@.len() as int
            };
            assert(start == y * b);
            assert(start + take == end);
            assert(g@ =~= self.batches()[y]);
            assert forall|u: int| 0 <= u < g@.len() implies self.indices@.contains(
                #[trigger] g@[u],
            ) by {
                assert(self.indices@[start + u] == g@[u]);
            }
        }
        self.pos = start + take;
        self.yielded = self.yielded + 1;
        Some(g)
    }
}

/// Law: the groups of a traversal without `drop_last` concatenate, in yield
/// order, to exactly the underlying index order.
#[verifier::rlimit(50)]
pub proof fn lemma_batches_concat(idx: Seq<usize>, b: int)
    requires
        b >= 1,
    ensures
        spec_batches(idx, b, false).flatten() == idx,
    decreases idx.len(),
{
    let n = idx.len() as int;
    let bs = spec_batches(idx, b, false);
    lemma_num_batches_bounds(n, b);
    if n == 0 {
        assert(bs =~= Seq::<Seq<usize>>::empty());
        assert(bs.flatten() =~= idx);
    } else {
        let m = if b <= n {
            b
        } else {
            n
        };
        let first = idx.subrange(0, m);
        let rest = idx.subrange(m, n);
        let rbs = spec_batches(rest, b, false);
        lemma_num_batches_bounds(n - m, b);
        if b <= n {
            vstd::arithmetic::div_mod::lemma_div_plus_one(n - 1, b);
            assert(num_batches(n, b, false) == 1 + num_batches(n - b, b, false));
        } else {
            assert(num_batches(n, b, false) == 1) by {
                vstd::arithmetic::div_mod::lemma_fundamental_div_mod(n + b - 1, b);
                vstd::arithmetic::div_mod::lemma_mod_bound(n + b - 1, b);
                if num_batches(n, b, false) >= 2 {
                    vstd::arithmetic::mul::lemma_mul_inequality(2, num_batches(n, b, false), b);
                }
            }
        }
        let tail = bs.drop_first();
        assert(bs.len() == 1 + rbs.len());
        assert forall|k: int| 0 <= k < tail.len() implies tail[k] == rbs[k] by {
            let t = bs.len() as int;
            vstd::arithmetic::mul::lemma_mul_is_distributive_add_other_way(b, k, 1);
            vstd::arithmetic::mul::lemma_mul_is_distributive_add_other_way(b, k, 2);
            vstd::arithmetic::mul::lemma_mul_nonnegative(k, b);
            vstd::arithmetic::mul::lemma_mul_inequality(k, k + 1, b);
            vstd::arithmetic::mul::lemma_mul_inequality(k + 1, k + 2, b);
            vstd::arithmetic::mul::lemma_mul_inequality(k + 1, t - 1, b);
            vstd::arithmetic::mul::lemma_mul_inequality(k + 2, t, b);
            assert(tail[k] == bs[k + 1]);
            assert(tail[k] =~= rbs[k]);
        }
        assert(tail =~= rbs);
        assert(bs.flatten() == bs.first() + tail.flatten());
        assert(bs.first() =~= first);
        lemma_batches_concat(rest, b);
        assert(first + rest =~= idx);
    }
}

/// Law: the sequential traversal over a dataset of length `n` yields
/// `ceil(n / b)` groups — `floor(n / b)` under `drop_last` — and without
/// `drop_last` their concatenation, in yield order, is exactly `0, ..., n-1`.
pub proof fn lemma_sequential_batches_cover(n: int, b: int)
    requires
        b >= 1,
        0 <= n,
    ensures
        spec_batches(index_seq(n), b, false).len() == num_batches(n, b, false),
        spec_batches(index_seq(n), b, true).len() == num_batches(n, b, true),
        spec_batches(index_seq(n), b, false).flatten() == index_seq(n),
{
    lemma_num_batches_bounds(n, b);
    lemma_batches_concat(index_seq(n), b);
}

/// Law: an index order whose multiset is that of `0, ..., n-1` is a
/// permutation: it has length `n`, stays below `n`, holds every index in
/// `[0, n)`, and repeats none.
pub proof fn lemma_permutation_covers(s: Seq<usize>, n: int)
    requires
        0 <= n <= usize::MAX,
        s.to_multiset() == index_seq(n).to_multiset(),
    ensures
        s.len() == n,
        forall|i: int| 0 <= i < s.len() ==> (s[i] as int) < n,
        forall|j: int| 0 <= j < n ==> s.contains(#[trigger] (j as usize)),
        s.no_duplicates(),
{
    broadcast use vstd::seq_lib::group_to_multiset_ensures;

    let ids = index_seq(n);
    assert(ids.no_duplicates());
    ids.lemma_multiset_has_no_duplicates();
    vstd::seq_lib::to_multiset_len(s);
    vstd::seq_lib::to_multiset_len(ids);
    assert forall|i: int| 0 <= i < s.len() implies (s[i] as int) < n by {
        assert(s.contains(s[i]));
        assert(s.to_multiset().count(s[i]) > 0);
        assert(ids.contains(s[i]));
        let u = choose|u: int| 0 <= u < ids.len() && ids[u] == s[i];
        assert(s[i] == u as usize);
    }
    assert forall|j: int| 0 <= j < n implies s.contains(#[trigger] (j as usize)) by {
        assert(ids[j] == j as usize);
        assert(ids.contains(j as usize));
        assert(ids.to_multiset().count(j as usize) > 0);
    }
    assert forall|x: usize| s.to_multiset().contains(x) implies s.to_multiset().count(x) == 1 by {
        assert(ids.to_multiset().count(x) == 1);
    }
    s.lemma_multiset_has_no_duplicates_conv();
}

} // verus!
