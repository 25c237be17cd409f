//! Collation: merging an ordered, non-empty batch of samples into one
//! batch-shaped value. The default strategy recurses over the samples'
//! structure: scalars stack into a one-dimensional container, composite
//! samples are collated position by position, opaque texts are kept as the
//! ordered original values, and any structural disagreement within the batch
//! is a `ShapeMismatch` error.

use vstd::prelude::*;

use crate::sample::{
    Sample, SampleV, column, depth_v, elems, lemma_depth_seq_bound, lemma_views_of,
    sample_view, views_of,
};

verus! {

broadcast use lemma_views_of;

/// Failure of collation: the batch is not uniform in the dimension being
/// merged.
#[derive(Debug, Clone, Copy, PartialEq, Eq, Structural)]
pub enum CollateError {
    ShapeMismatch,
}

/// The batch-shaped value that collation produces.
#[derive(Debug, PartialEq)]
pub enum Collated {
    /// Scalar samples stacked into a one-dimensional container, in batch
    /// order.
    Stacked(Vec<i64>),
    /// Opaque text samples kept as the ordered original values.
    Texts(Vec<String>),
    /// One entry per position of uniform-length sequence samples, each the
    /// collation of that position's cross-batch slice.
    Entries(Vec<Collated>),
    /// One entry per position of fixed-arity tuple samples, each the
    /// collation of that position's cross-batch slice.
    Fields(Vec<Collated>),
    /// The untouched ordered batch, for strategies that do not merge.
    Raw(Vec<Sample>),
}

/// Mathematical shape of a `Collated` value.
pub enum BatchV {
    Stacked(Seq<int>),
    Texts(Seq<Seq<char>>),
    Entries(Seq<BatchV>),
    Fields(Seq<BatchV>),
    Raw(Seq<SampleV>),
}

/// The view of one collated value.
pub open spec fn collated_view(c: Collated) -> BatchV
    decreases c,
{
    match c {
        Collated::Stacked(v) => BatchV::Stacked(Seq::new(v@.len(), |i: int| v@[i] as int)),
        Collated::Texts(v) => BatchV::Texts(Seq::new(v@.len(), |i: int| v@[i]@)),
        Collated::Entries(v) => BatchV::Entries(collated_views_of(v@)),
        Collated::Fields(v) => BatchV::Fields(collated_views_of(v@)),
        Collated::Raw(v) => BatchV::Raw(views_of(v@)),
    }
}

/// The views of a sequence of collated values, element by element.
pub open spec fn collated_views_of(q: Seq<Collated>) -> Seq<BatchV>
    decreases q,
{
    if q.len() == 0 {
        Seq::empty()
    } else {
        collated_views_of(q.subrange(0, q.len() - 1)).push(collated_view(q[q.len() - 1]))
    }
}

/// `collated_views_of` is the element-wise view map.
pub broadcast proof fn lemma_collated_views_of(q: Seq<Collated>)
    ensures
        (#[trigger] collated_views_of(q)).len() == q.len(),
        forall|i: int| 0 <= i < q.len() ==> collated_views_of(q)[i] == collated_view(q[i]),
    decreases q,
{
    if q.len() > 0 {
        lemma_collated_views_of(q.subrange(0, q.len() - 1));
    }
}

/// The scalar held by a scalar shape.
pub open spec fn int_of(s: SampleV) -> int {
    match s {
        SampleV::Int(x) => x,
        _ => 0,
    }
}

/// The text held by a text shape.
pub open spec fn text_of(s: SampleV) -> Seq<char> {
    match s {
        SampleV::Text(t) => t,
        _ => Seq::empty(),
    }
}

pub open spec fn all_ints(batch: Seq<SampleV>) -> bool {
    forall|i: int| 0 <= i < batch.len() ==> batch[i] is Int
}

pub open spec fn all_texts(batch: Seq<SampleV>) -> bool {
    forall|i: int| 0 <= i < batch.len() ==> batch[i] is Text
}

pub open spec fn uniform_lists(batch: Seq<SampleV>, k: int) -> bool {
    forall|i: int|
        0 <= i < batch.len() ==> (#[trigger] batch[i]) is List && elems(batch[i]).len() == k
}

pub open spec fn uniform_tuples(batch: Seq<SampleV>, k: int) -> bool {
    forall|i: int|
        0 <= i < batch.len() ==> (#[trigger] batch[i]) is Tuple && elems(batch[i]).len() == k
}

/// What the default strategy returns on a non-empty batch of sample shapes:
/// the structure of the first sample decides the case, the whole batch must
/// agree with it, and composite samples are collated column by column.
pub open spec fn collate_spec(batch: Seq<SampleV>) -> Result<BatchV, CollateError>
    recommends
        batch.len() >= 1,
    decreases depth_v(batch[0]), 1int, 0int,
    when batch.len() >= 1
{
    match batch[0] {
        SampleV::Int(_) => if all_ints(batch) {
            Ok(BatchV::Stacked(Seq::new(batch.len(), |i: int| int_of(batch[i]))))
        } else {
            Err(CollateError::ShapeMismatch)
        },
        SampleV::Text(_) => if all_texts(batch) {
            Ok(BatchV::Texts(Seq::new(batch.len(), |i: int| text_of(batch[i]))))
        } else {
            Err(CollateError::ShapeMismatch)
        },
        SampleV::List(q) => if uniform_lists(batch, q.len() as int) {
            match collate_cols(batch, 0, q.len() as int) {
                Ok(cs) => Ok(BatchV::Entries(cs)),
                Err(e) => Err(e),
            }
        } else {
            Err(CollateError::ShapeMismatch)
        },
        SampleV::Tuple(q) => if uniform_tuples(batch, q.len() as int) {
            match collate_cols(batch, 0, q.len() as int) {
                Ok(cs) => Ok(BatchV::Fields(cs)),
                Err(e) => Err(e),
            }
        } else {
            Err(CollateError::ShapeMismatch)
        },
    }
}

/// The collations of columns `j .. k` of a batch of uniform composite
/// samples, in order; the first failing column decides the error.
pub open spec fn collate_cols(batch: Seq<SampleV>, j: int, k: int) -> Result<
    Seq<BatchV>,
    CollateError,
>
    recommends
        batch.len() >= 1,
        0 <= j <= k,
    decreases depth_v(batch[0]), 0int, k - j,
    when batch.len() >= 1 && 0 <= j <= k && (uniform_lists(batch, k) || uniform_tuples(batch, k))
    via collate_cols_dec
{
    if j == k {
        Ok(Seq::empty())
    } else {
        match collate_spec(column(batch, j)) {
            Ok(c) => match collate_cols(batch, j + 1, k) {
                Ok(rest) => Ok(seq![c] + rest),
                Err(e) => Err(e),
            },
            Err(e) => Err(e),
        }
    }
}

#[via_fn]
proof fn collate_cols_dec(batch: Seq<SampleV>, j: int, k: int) {
    if j < k {
        lemma_depth_seq_bound(elems(batch[0]), j);
        assert(column(batch, j)[0] == elems(batch[0])[j]);
        assert(column(batch, j).len() == batch.len());
    }
}

/// Column collations that all succeed make up the whole column result.
proof fn lemma_collate_cols_ok(batch: Seq<SampleV>, j: int, k: int, res: Seq<BatchV>)
    requires
        batch.len() >= 1,
        0 <= j <= k,
        uniform_lists(batch, k) || uniform_tuples(batch, k),
        res.len() == k - j,
        forall|u: int|
            j <= u < k ==> collate_spec(column(batch, u)) == Ok::<BatchV, CollateError>(
                res[u - j],
            ),
    ensures
        collate_cols(batch, j, k) == Ok::<Seq<BatchV>, CollateError>(res),
    decreases k - j,
{
    if j == k {
        assert(res =~= Seq::<BatchV>::empty());
    } else {
        let rest = res.subrange(1, res.len() as int);
        lemma_collate_cols_ok(batch, j + 1, k, rest);
        assert(collate_spec(column(batch, j)) == Ok::<BatchV, CollateError>(res[0]));
        assert(seq![res[0]] + rest =~= res);
    }
}

/// A failing column makes the whole column collation fail.
proof fn lemma_collate_cols_err(batch: Seq<SampleV>, j: int, k: int, m: int)
    requires
        batch.len() >= 1,
        0 <= j <= m < k,
        uniform_lists(batch, k) || uniform_tuples(batch, k),
        forall|u: int| j <= u < m ==> (#[trigger] collate_spec(column(batch, u))) is Ok,
        collate_spec(column(batch, m)) == Err::<BatchV, CollateError>(CollateError::ShapeMismatch),
    ensures
        collate_cols(batch, j, k) == Err::<Seq<BatchV>, CollateError>(CollateError::ShapeMismatch),
    decreases m - j,
{
    if j < m {
        lemma_collate_cols_err(batch, j + 1, k, m);
    }
}

/// Default recursive collation of one non-empty batch, exactly as
/// `collate_spec` describes it on the batch's views.
#[verifier::loop_isolation(false)]
pub fn collate_batch(batch: &Vec<Sample>) -> (r: Result<Collated, CollateError>)
    requires
        batch@.len() >= 1,
    ensures
        (match r {
            Ok(c) => collate_spec(views_of(batch@)) == Ok::<BatchV, CollateError>(
                collated_view(c),
            ),
            Err(e) => collate_spec(views_of(batch@)) == Err::<BatchV, CollateError>(e),
        }),
    decreases depth_v(sample_view(batch@[0])), 1int,
{

    let ghost bv = views_of(batch@);
    let n = batch.len();
    match &batch[0] {
        Sample::Int(_) => {
            let mut out: Vec<i64> = Vec::new();
            let mut i: usize = 0;
            while i < n
                invariant
                    i <= n,
                    out@.len() == i,
                    forall|u: int| 0 <= u < i ==> bv[u] is Int,
                    forall|u: int| 0 <= u < i ==> out@[u] as int == int_of(bv[u]),
                decreases n - i,
            {
                match &batch[i] {
                    Sample::Int(x) => {
                        out.push(*x);
                    },
                    _ => {
                        proof {
                            assert(!(bv[i as int] is Int));
                            assert(!all_ints(bv));
                            assert(bv[0] is Int);
                        }
                        return Err(CollateError::ShapeMismatch);
                    },
                }
                i = i + 1;
            }
            proof {
                assert(all_ints(bv));
                assert(Seq::new(out@.len(), |u: int| out@[u] as int) =~= Seq::new(
                    bv.len(),
                    |u: int| int_of(bv[u]),
                ));
            }
            Ok(Collated::Stacked(out))
        },
        Sample::Text(_) => {
            let mut out: Vec<String> = Vec::new();
            let mut i: usize = 0;
            while i < n
                invariant
                    i <= n,
                    out@.len() == i,
                    forall|u: int| 0 <= u < i ==> bv[u] is Text,
                    forall|u: int| 0 <= u < i ==> out@[u]@ == text_of(bv[u]),
                decreases n - i,
            {
                match &batch[i] {
                    Sample::Text(t) => {
                        out.push(t.clone());
                    },
                    _ => {
                        proof {
                            assert(!(bv[i as int] is Text));
                            assert(!all_texts(bv));
                            assert(bv[0] is Text);
                        }
                        return Err(CollateError::ShapeMismatch);
                    },
                }
                i = i + 1;
            }
            proof {
                assert(all_texts(bv));
                assert(Seq::new(out@.len(), |u: int| out@[u]@) =~= Seq::new(
                    bv.len(),
                    |u: int| text_of(bv[u]),
                ));
            }
            Ok(Collated::Texts(out))
        },
        Sample::List(v0) => {
            let k = v0.len();
            proof {
                assert(bv[0] == sample_view(batch@[0]));
                assert(elems(bv[0]) == views_of(v0@));
                assert(elems(bv[0]).len() == k);
            }
            if !check_uniform(batch, k, true) {
                proof {
                    assert(bv[0] is List);
                }
                return Err(CollateError::ShapeMismatch);
            }
            match collate_columns(batch, k) {
                Ok(cols) => Ok(Collated::Entries(cols)),
                Err(e) => Err(e),
            }
        },
        Sample::Tuple(v0) => {
            let k = v0.len();
            proof {
                assert(bv[0] == sample_view(batch@[0]));
                assert(elems(bv[0]) == views_of(v0@));
                assert(elems(bv[0]).len() == k);
            }
            if !check_uniform(batch, k, false) {
                proof {
                    assert(bv[0] is Tuple);
                }
                return Err(CollateError::ShapeMismatch);
            }
            match collate_columns(batch, k) {
                Ok(cols) => Ok(Collated::Fields(cols)),
                Err(e) => Err(e),
            }
        },
    }
}

/// Whether every sample in the batch is a sequence (`want_list`) or a tuple
/// (otherwise) of exactly `k` elements.
#[verifier::loop_isolation(false)]
fn check_uniform(batch: &Vec<Sample>, k: usize, want_list: bool) -> (r: bool)
    ensures
        want_list ==> r == uniform_lists(views_of(batch@), k as int),
        !want_list ==> r == uniform_tuples(views_of(batch@), k as int),
{
    let ghost bv = views_of(batch@);
    let n = batch.len();
    let mut i: usize = 0;
    while i < n
        invariant
            i <= n,
            want_list ==> forall|u: int|
                0 <= u < i ==> (#[trigger] bv[u]) is List && elems(bv[u]).len() == k,
            !want_list ==> forall|u: int|
                0 <= u < i ==> (#[trigger] bv[u]) is Tuple && elems(bv[u]).len() == k,
        decreases n - i,
    {
        match &batch[i] {
            Sample::List(vi) => {
                proof {
                    assert(bv[i as int] is List);
                    assert(elems(bv[i as int]) == views_of(vi@));
                }
                if !want_list || vi.len() != k {
                    return false;
                }
            },
            Sample::Tuple(vi) => {
                proof {
                    assert(bv[i as int] is Tuple);
                    assert(elems(bv[i as int]) == views_of(vi@));
                }
                if want_list || vi.len() != k {
                    return false;
                }
            },
            _ => {
                proof {
                    assert(!(bv[i as int] is List) && !(bv[i as int] is Tuple));
                }
                return false;
            },
        }
        i = i + 1;
    }
    true
}

/// Collate every column of a batch of uniform composite samples, in column
/// order.
#[verifier::loop_isolation(false)]
fn collate_columns(batch: &Vec<Sample>, k: usize) -> (r: Result<Vec<Collated>, CollateError>)
    requires
        batch@.len() >= 1,
        uniform_lists(views_of(batch@), k as int) || uniform_tuples(views_of(batch@), k as int),
    ensures
        (match r {
            Ok(cols) => collate_cols(views_of(batch@), 0, k as int) == Ok::<
                Seq<BatchV>,
                CollateError,
            >(collated_views_of(cols@)),
            Err(e) => collate_cols(views_of(batch@), 0, k as int) == Err::<
                Seq<BatchV>,
                CollateError,
            >(e),
        }),
    decreases depth_v(sample_view(batch@[0])), 0int,
{
    broadcast use lemma_collated_views_of;

    let ghost bv = views_of(batch@);
    let n = batch.len();
    let mut cols: Vec<Collated> = Vec::new();
    let mut j: usize = 0;
    while j < k
        invariant
            j <= k,
            cols@.len() == j,
            forall|u: int|
                0 <= u < j ==> collate_spec(column(bv, u)) == Ok::<BatchV, CollateError>(
                    collated_view(cols@[u]),
                ),
        decreases k - j,
    {
        let mut col: Vec<Sample> = Vec::new();
        let mut i: usize = 0;
        while i < n
            invariant
                i <= n,
                col@.len() == i,
                forall|u: int| 0 <= u < i ==> sample_view(col@[u]) == elems(bv[u])[j as int],
            decreases n - i,
        {
            let s = match &batch[i] {
                Sample::List(vi) => {
                    proof {
                        assert(elems(bv[i as int]) == views_of(vi@));
                    }
                    vi[j].duplicate()
                },
                Sample::Tuple(vi) => {
                    proof {
                        assert(elems(bv[i as int]) == views_of(vi@));
                    }
                    vi[j].duplicate()
                },
                _ => {
                    proof {
                        assert(bv[i as int] is List || bv[i as int] is Tuple);
                        assert(false);
                    }
                    Sample::Int(0)
                },
            };
            col.push(s);
            i = i + 1;
        }
        proof {
            assert(views_of(col@) =~= column(bv, j as int));
            lemma_depth_seq_bound(elems(bv[0]), j as int);
            assert(sample_view(col@[0]) == elems(bv[0])[j as int]);
        }
        match collate_batch(&col) {
            Ok(c) => {
                cols.push(c);
            },
            Err(e) => {
                proof {
                    assert(e == CollateError::ShapeMismatch);
                    lemma_collate_cols_err(bv, 0, k as int, j as int);
                }
                return Err(e);
            },
        }
        j = j + 1;
    }
    proof {
        lemma_collate_cols_ok(bv, 0, k as int, collated_views_of(cols@));
    }
    Ok(cols)
}

/// Law: collating a batch of scalar samples stacks exactly the original
/// scalars, in batch order — so slicing the batch dimension back out of the
/// output reproduces the ordered inputs.
pub proof fn lemma_scalar_round_trip(batch: Seq<SampleV>)
    requires
        batch.len() >= 1,
        all_ints(batch),
    ensures
        collate_spec(batch) == Ok::<BatchV, CollateError>(
            BatchV::Stacked(Seq::new(batch.len(), |i: int| int_of(batch[i]))),
        ),
{
    assert(batch[0] is Int);
}

/// A pluggable collation strategy: one operation that merges an ordered,
/// non-empty batch of samples into an output or fails on a structural
/// mismatch, exactly as its `collated` shape function says.
pub trait Collate: Sized {
    /// Mathematical result of this strategy on a batch of sample shapes.
    spec fn collated(&self, batch: Seq<SampleV>) -> Result<BatchV, CollateError>;

    /// Merge one non-empty batch.
    fn collate(&self, batch: Vec<Sample>) -> (r: Result<Collated, CollateError>)
        requires
            batch@.len() >= 1,
        ensures
            (match r {
                Ok(c) => self.collated(views_of(batch@)) == Ok::<BatchV, CollateError>(
                    collated_view(c),
                ),
                Err(e) => self.collated(views_of(batch@)) == Err::<BatchV, CollateError>(e),
            }),
    ;
}

/// The default strategy: recursive structural collation.
#[derive(Debug, Clone, Copy, PartialEq, Eq, Structural)]
pub struct DefaultCollate;

impl Collate for DefaultCollate {
    open spec fn collated(&self, batch: Seq<SampleV>) -> Result<BatchV, CollateError> {
        collate_spec(batch)
    }

    fn collate(&self, batch: Vec<Sample>) -> (r: Result<Collated, CollateError>) {
        collate_batch(&batch)
    }
}

/// A strategy that merges nothing: the batch is handed out as the ordered
/// sequence of its original values, and never fails.
#[derive(Debug, Clone, Copy, PartialEq, Eq, Structural)]
pub struct NoOpCollate;

impl Collate for NoOpCollate {
    open spec fn collated(&self, batch: Seq<SampleV>) -> Result<BatchV, CollateError> {
        Ok(BatchV::Raw(batch))
    }

    fn collate(&self, batch: Vec<Sample>) -> (r: Result<Collated, CollateError>) {
        Ok(Collated::Raw(batch))
    }
}

} // verus!
