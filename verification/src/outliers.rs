use vstd::prelude::*;

verus! {

/// How Tukey's fences classify one point of a sample.
#[derive(Clone, Copy, Debug, PartialEq, Eq, Structural)]
pub enum Label {
    /// A mild outlier above the sample.
    HighMild,
    /// A severe outlier above the sample.
    HighSevere,
    /// A mild outlier below the sample.
    LowMild,
    /// A severe outlier below the sample.
    LowSevere,
    /// A point inside the inner fences.
    NotAnOutlier,
}

impl Label {
    pub open spec fn spec_is_outlier(&self) -> bool {
        !(self is NotAnOutlier)
    }

    pub open spec fn spec_is_mild(&self) -> bool {
        self is HighMild || self is LowMild
    }

    pub open spec fn spec_is_severe(&self) -> bool {
        self is HighSevere || self is LowSevere
    }

    /// Whether the point lies outside the inner fences.
    #[verifier::when_used_as_spec(spec_is_outlier)]
    pub fn is_outlier(&self) -> (outlier: bool)
        ensures
            outlier == self.spec_is_outlier(),
    {
        match self {
            Label::NotAnOutlier => false,
            _ => true,
        }
    }

    /// Whether the point lies between an inner and an outer fence.
    #[verifier::when_used_as_spec(spec_is_mild)]
    pub fn is_mild(&self) -> (mild: bool)
        ensures
            mild == self.spec_is_mild(),
    {
        match self {
            Label::HighMild | Label::LowMild => true,
            _ => false,
        }
    }

    /// Whether the point lies beyond an outer fence.
    #[verifier::when_used_as_spec(spec_is_severe)]
    pub fn is_severe(&self) -> (severe: bool)
        ensures
            severe == self.spec_is_severe(),
    {
        match self {
            Label::HighSevere | Label::LowSevere => true,
            _ => false,
        }
    }
}

/// Law: an outlier is either mild or severe, never both; a point that is not
/// an outlier is neither.
pub proof fn lemma_outlier_kinds(label: Label)
    ensures
        label.spec_is_outlier() <==> (label.spec_is_mild() || label.spec_is_severe()),
        !(label.spec_is_mild() && label.spec_is_severe()),
{
}

/// The three sets of points that a probability density plot draws, each in
/// its own colour.
#[derive(Clone, Copy, Debug, PartialEq, Eq, Structural)]
pub enum PointSet {
    /// Points that are not outliers.
    Clean,
    /// Mild outliers.
    Mild,
    /// Severe outliers.
    Severe,
}

/// Whether a point with label `label` is drawn in the set `set`.
pub open spec fn in_set(label: Label, set: PointSet) -> bool {
    match set {
        PointSet::Clean => !label.spec_is_outlier(),
        PointSet::Mild => label.spec_is_mild(),
        PointSet::Severe => label.spec_is_severe(),
    }
}

/// The positions, in increasing order, of the points of `labels` drawn in `set`.
pub open spec fn positions_in(labels: Seq<Label>, set: PointSet) -> Seq<usize>
    decreases labels.len(),
{
    if labels.len() == 0 {
        Seq::empty()
    } else if in_set(labels.last(), set) {
        positions_in(labels.drop_last(), set).push((labels.len() - 1) as usize)
    } else {
        positions_in(labels.drop_last(), set)
    }
}

fn belongs(label: &Label, set: PointSet) -> (b: bool)
    ensures
        b == in_set(*label, set),
{
    match set {
        PointSet::Clean => !label.is_outlier(),
        PointSet::Mild => label.is_mild(),
        PointSet::Severe => label.is_severe(),
    }
}

/// The positions of the points of a labelled sample that are drawn in `set`,
/// in the order of the sample; the plot takes the time and the iteration
/// count at each of them.
pub fn points_in(labels: &Vec<Label>, set: PointSet) -> (positions: Vec<usize>)
    ensures
        positions@ == positions_in(labels@, set),
{
    let mut positions: Vec<usize> = Vec::new();
    let n = labels.len();
    let mut i: usize = 0;
    while i < n
        invariant
            n == labels@.len(),
            i <= n,
            positions@ == positions_in(labels@.subrange(0, i as int), set),
        decreases n - i,
    {
        let ghost before = labels@.subrange(0, i as int);
        let ghost after = labels@.subrange(0, i + 1);
        assert(after.drop_last() =~= before);
        if belongs(&labels[i], set) {
            positions.push(i);
        }
        i = i + 1;
    }
    assert(labels@.subrange(0, n as int) =~= labels@);
    positions
}

/// A position is listed for `set` exactly when it is a position of the sample
/// whose label belongs to `set`; the list is strictly increasing.
pub proof fn lemma_positions_in(labels: Seq<Label>, set: PointSet)
    requires
        labels.len() <= usize::MAX,
    ensures
        forall|k: int|
            0 <= k < positions_in(labels, set).len() ==> #[trigger] positions_in(labels, set)[k]
                < labels.len() && in_set(labels[positions_in(labels, set)[k] as int], set),
        forall|j: int, k: int|
            0 <= j < k < positions_in(labels, set).len() ==> #[trigger] positions_in(labels, set)[j]
                < #[trigger] positions_in(labels, set)[k],
        forall|i: int|
            0 <= i < labels.len() && in_set(#[trigger] labels[i], set) ==> positions_in(
                labels,
                set,
            ).contains(i as usize),
    decreases labels.len(),
{
    if labels.len() > 0 {
        let prefix = labels.drop_last();
        lemma_positions_in(prefix, set);
        let ps = positions_in(labels, set);
        let pp = positions_in(prefix, set);
        let last = (labels.len() - 1) as usize;
        assert(ps.len() >= pp.len());
        assert forall|k: int| 0 <= k < pp.len() implies #[trigger] ps[k] == pp[k] by {
            if in_set(labels.last(), set) {
                assert(ps == pp.push(last));
            }
        }
        assert(in_set(labels.last(), set) ==> ps.len() == pp.len() + 1 && ps[pp.len() as int]
            == last);
        assert(!in_set(labels.last(), set) ==> ps.len() == pp.len());
        assert forall|k: int| 0 <= k < ps.len() implies #[trigger] ps[k] < labels.len() && in_set(
            labels[ps[k] as int],
            set,
        ) by {
            if k < pp.len() {
                assert(ps[k] == pp[k]);
                assert(pp[k] < prefix.len());
                assert(labels[pp[k] as int] == prefix[pp[k] as int]);
            }
        }
        assert forall|j: int, k: int| 0 <= j < k < ps.len() implies #[trigger] ps[j]
            < #[trigger] ps[k] by {
            assert(ps[j] == pp[j]);
            if k < pp.len() {
                assert(ps[k] == pp[k]);
            } else {
                assert(pp[j] < prefix.len());
            }
        }
        assert forall|i: int| 0 <= i < labels.len() && in_set(#[trigger] labels[i], set) implies ps.contains(
            i as usize,
        ) by {
            if i < last {
                assert(prefix[i] == labels[i]);
                assert(pp.contains(i as usize));
                let k = choose|k: int| 0 <= k < pp.len() && pp[k] == i as usize;
                assert(ps[k] == i as usize);
            } else {
                assert(ps[pp.len() as int] == i as usize);
            }
        }
    }
}

/// Position `i` of the sample is listed for `set` exactly when its label
/// belongs to `set`.
pub proof fn lemma_listed_iff(labels: Seq<Label>, set: PointSet, i: int)
    requires
        labels.len() <= usize::MAX,
        0 <= i < labels.len(),
    ensures
        positions_in(labels, set).contains(i as usize) <==> in_set(labels[i], set),
{
    lemma_positions_in(labels, set);
    let ps = positions_in(labels, set);
    if ps.contains(i as usize) {
        let k = choose|k: int| 0 <= k < ps.len() && ps[k] == i as usize;
        assert(ps[k] < labels.len());
    }
}

/// Position `i` of the sample is drawn in exactly one of the three point sets.
pub open spec fn drawn_once(labels: Seq<Label>, i: int) -> bool {
    let c = positions_in(labels, PointSet::Clean).contains(i as usize);
    let m = positions_in(labels, PointSet::Mild).contains(i as usize);
    let s = positions_in(labels, PointSet::Severe).contains(i as usize);
    (c && !m && !s) || (!c && m && !s) || (!c && !m && s)
}

/// Law: the clean points, the mild outliers and the severe outliers split the
/// sample: every point is drawn in exactly one of the three sets, and the three
/// sets together hold as many points as the sample.
pub proof fn lemma_point_sets_partition(labels: Seq<Label>)
    requires
        labels.len() <= usize::MAX,
    ensures
        forall|i: int| 0 <= i < labels.len() ==> #[trigger] drawn_once(labels, i),
        positions_in(labels, PointSet::Clean).len() + positions_in(labels, PointSet::Mild).len()
            + positions_in(labels, PointSet::Severe).len() == labels.len(),
    decreases labels.len(),
{
    assert forall|i: int| 0 <= i < labels.len() implies #[trigger] drawn_once(labels, i) by {
        lemma_listed_iff(labels, PointSet::Clean, i);
        lemma_listed_iff(labels, PointSet::Mild, i);
        lemma_listed_iff(labels, PointSet::Severe, i);
    }
    if labels.len() > 0 {
        lemma_point_sets_partition(labels.drop_last());
    }
}


/// Law: which labels each point set takes: the clean points are exactly those
/// not labelled as outliers, the mild set the mild outliers on either side, the
/// severe set the severe outliers on either side.
pub proof fn lemma_point_set_members(labels: Seq<Label>, i: int)
    requires
        labels.len() <= usize::MAX,
        0 <= i < labels.len(),
    ensures
        positions_in(labels, PointSet::Clean).contains(i as usize) <==> labels[i]
            == Label::NotAnOutlier,
        positions_in(labels, PointSet::Mild).contains(i as usize) <==> (labels[i]
            == Label::HighMild || labels[i] == Label::LowMild),
        positions_in(labels, PointSet::Severe).contains(i as usize) <==> (labels[i]
            == Label::HighSevere || labels[i] == Label::LowSevere),
{
    lemma_listed_iff(labels, PointSet::Clean, i);
    lemma_listed_iff(labels, PointSet::Mild, i);
    lemma_listed_iff(labels, PointSet::Severe, i);
}

} // verus!
