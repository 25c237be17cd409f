//! The sample data model: a closed set of structural shapes — scalar, opaque
//! text, ordered sequence, fixed-arity tuple — with a mathematical view used
//! by every contract, and structural depth used to ground recursion over
//! nested samples.

use vstd::prelude::*;

verus! {

/// One data item handed out by a dataset: a scalar, an opaque text, an
/// ordered sequence of nested samples, or a fixed-arity tuple of nested
/// samples.
#[derive(Debug, PartialEq)]
pub enum Sample {
    Int(i64),
    Text(String),
    List(Vec<Sample>),
    Tuple(Vec<Sample>),
}

/// Mathematical shape of a `Sample`.
pub enum SampleV {
    Int(int),
    Text(Seq<char>),
    List(Seq<SampleV>),
    Tuple(Seq<SampleV>),
}

/// The view of one sample.
pub open spec fn sample_view(s: Sample) -> SampleV
    decreases s,
{
    match s {
        Sample::Int(x) => SampleV::Int(x as int),
        Sample::Text(t) => SampleV::Text(t@),
        Sample::List(v) => SampleV::List(views_of(v@)),
        Sample::Tuple(v) => SampleV::Tuple(views_of(v@)),
    }
}

/// The views of a sequence of samples, element by element.
pub open spec fn views_of(q: Seq<Sample>) -> Seq<SampleV>
    decreases q,
{
    if q.len() == 0 {
        Seq::empty()
    } else {
        views_of(q.subrange(0, q.len() - 1)).push(sample_view(q[q.len() - 1]))
    }
}

/// `views_of` is the element-wise view map.
pub broadcast proof fn lemma_views_of(q: Seq<Sample>)
    ensures
        (#[trigger] views_of(q)).len() == q.len(),
        forall|i: int| 0 <= i < q.len() ==> views_of(q)[i] == sample_view(q[i]),
    decreases q,
{
    if q.len() > 0 {
        lemma_views_of(q.subrange(0, q.len() - 1));
    }
}

/// Nesting depth of a sample shape: leaves have depth 0, a composite is one
/// deeper than its deepest element.
pub open spec fn depth_v(s: SampleV) -> nat
    decreases s,
{
    match s {
        SampleV::Int(_) => 0,
        SampleV::Text(_) => 0,
        SampleV::List(q) => 1 + depth_seq(q),
        SampleV::Tuple(q) => 1 + depth_seq(q),
    }
}

/// Largest depth among the shapes of `q`; 0 when `q` is empty.
pub open spec fn depth_seq(q: Seq<SampleV>) -> nat
    decreases q,
{
    if q.len() == 0 {
        0
    } else {
        let d = depth_v(q[0]);
        let r = depth_seq(q.subrange(1, q.len() as int));
        if d >= r {
            d
        } else {
            r
        }
    }
}

/// Each element's depth is bounded by the depth of the whole sequence.
pub proof fn lemma_depth_seq_bound(q: Seq<SampleV>, i: int)
    requires
        0 <= i < q.len(),
    ensures
        depth_v(q[i]) <= depth_seq(q),
    decreases q.len(),
{
    if i > 0 {
        lemma_depth_seq_bound(q.subrange(1, q.len() as int), i - 1);
    }
}

/// The nested elements of a composite shape; empty for leaves.
pub open spec fn elems(s: SampleV) -> Seq<SampleV> {
    match s {
        SampleV::List(q) => q,
        SampleV::Tuple(q) => q,
        _ => Seq::empty(),
    }
}

/// The cross-batch slice at position `j`: element `j` of each sample in the
/// batch.
pub open spec fn column(batch: Seq<SampleV>, j: int) -> Seq<SampleV> {
    Seq::new(batch.len(), |i: int| elems(batch[i])[j])
}

impl Sample {
    /// Structure-preserving deep copy; the copy has the same view.
    pub fn duplicate(&self) -> (r: Sample)
        ensures
            sample_view(r) == sample_view(*self),
        decreases *self,
    {
        match self {
            Sample::Int(x) => Sample::Int(*x),
            Sample::Text(t) => Sample::Text(t.clone()),
            Sample::List(v) => Sample::List(duplicate_all(v)),
            Sample::Tuple(v) => Sample::Tuple(duplicate_all(v)),
        }
    }
}

/// Element-wise deep copy of a vector of samples; the copy has the same
/// element views.
pub fn duplicate_all(v: &Vec<Sample>) -> (r: Vec<Sample>)
    ensures
        views_of(r@) == views_of(v@),
        r@.len() == v@.len(),
    decreases *v,
{
    broadcast use lemma_views_of;

    let n = v.len();
    let mut r: Vec<Sample> = Vec::new();
    let mut i: usize = 0;
    while i < n
        invariant
            i <= n,
            n == v@.len(),
            r@.len() == i,
            forall|k: int| 0 <= k < i ==> sample_view(r@[k]) == sample_view(v@[k]),
        decreases n - i,
    {
        let s = v[i].duplicate();
        r.push(s);
        i = i + 1;
    }
    proof {
        assert forall|k: int| 0 <= k < n implies views_of(r@)[k] == views_of(v@)[k] by {
            assert(sample_view(r@[k]) == sample_view(v@[k]));
        }
        assert(views_of(r@) =~= views_of(v@));
    }
    r
}

} // verus!
