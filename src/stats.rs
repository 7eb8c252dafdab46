use vstd::prelude::*;

verus! {

/// The mathematical value of a set of statistics.
pub struct StatsModel {
    pub attempted: nat,
    pub parsed: nat,
    pub bytes: nat,
}

impl StatsModel {
    /// No file attempted.
    pub open spec fn zero() -> StatsModel {
        StatsModel { attempted: 0, parsed: 0, bytes: 0 }
    }

    /// One file of `size` bytes, parsed or not.
    pub open spec fn single(size: nat, success: bool) -> StatsModel {
        StatsModel { attempted: 1, parsed: if success { 1 } else { 0 }, bytes: size }
    }

    /// Field-wise sum.
    pub open spec fn merge(self, other: StatsModel) -> StatsModel {
        StatsModel {
            attempted: self.attempted + other.attempted,
            parsed: self.parsed + other.parsed,
            bytes: self.bytes + other.bytes,
        }
    }

    /// No more files parsed than attempted.
    pub open spec fn wf(self) -> bool {
        self.parsed <= self.attempted
    }

    /// The sum of `self` and `other` fits in the machine fields.
    pub open spec fn fits_with(self, other: StatsModel) -> bool {
        &&& self.attempted + other.attempted <= usize::MAX
        &&& self.parsed + other.parsed <= usize::MAX
        &&& self.bytes + other.bytes <= u64::MAX
    }
}

/// Counts of files attempted and parsed, and their total size.
#[derive(Clone, Copy, Debug, PartialEq, Eq)]
pub struct DemoStats {
    files_attempted: usize,
    files_parsed: usize,
    /// Total size of all the files attempted, in bytes.
    total_bytes: u64,
}

impl View for DemoStats {
    type V = StatsModel;

    closed spec fn view(&self) -> StatsModel {
        StatsModel {
            attempted: self.files_attempted as nat,
            parsed: self.files_parsed as nat,
            bytes: self.total_bytes as nat,
        }
    }
}

impl DemoStats {
    /// Statistics of nothing: the identity of `add`.
    pub fn new() -> (r: DemoStats)
        ensures
            r@ == StatsModel::zero(),
    {
        DemoStats { files_attempted: 0, files_parsed: 0, total_bytes: 0 }
    }

    /// Statistics of one file of `size_bytes` bytes.
    pub fn new_single(size_bytes: u64, success: bool) -> (r: DemoStats)
        ensures
            r@ == StatsModel::single(size_bytes as nat, success),
    {
        DemoStats {
            files_attempted: 1,
            files_parsed: if success { 1 } else { 0 },
            total_bytes: size_bytes,
        }
    }

    /// Adds `other` into `self`, field by field.
    pub fn add(&mut self, other: &DemoStats)
        requires
            old(self)@.fits_with(other@),
        ensures
            final(self)@ == old(self)@.merge(other@),
    {
        self.files_attempted = self.files_attempted + other.files_attempted;
        self.files_parsed = self.files_parsed + other.files_parsed;
        self.total_bytes = self.total_bytes + other.total_bytes;
    }

    /// Whether `add(other)` would stay within the machine fields.
    pub fn can_add(&self, other: &DemoStats) -> (r: bool)
        ensures
            r == self@.fits_with(other@),
    {
        self.files_attempted <= usize::MAX - other.files_attempted
            && self.files_parsed <= usize::MAX - other.files_parsed
            && self.total_bytes <= u64::MAX - other.total_bytes
    }
    pub fn files_attempted(&self) -> (r: usize)
        ensures
            r == self@.attempted,
    {
        self.files_attempted
    }

    pub fn files_parsed(&self) -> (r: usize)
        ensures
            r == self@.parsed,
    {
        self.files_parsed
    }

    pub fn total_bytes(&self) -> (r: u64)
        ensures
            r == self@.bytes,
    {
        self.total_bytes
    }
}

impl Default for DemoStats {
    fn default() -> (r: DemoStats)
        ensures
            r@ == StatsModel::zero(),
    {
        DemoStats::new()
    }
}

/// Merging is commutative: `a` then `b` totals the same as `b` then `a`.
pub proof fn lemma_merge_commutative(a: DemoStats, b: DemoStats)
    ensures
        a@.merge(b@) == b@.merge(a@),
{
}

/// Merging is associative: how partial totals are grouped does not matter.
pub proof fn lemma_merge_associative(a: DemoStats, b: DemoStats, c: DemoStats)
    ensures
        a@.merge(b@).merge(c@) == a@.merge(b@.merge(c@)),
{
}

/// The statistics of nothing are the identity of merging.
pub proof fn lemma_merge_zero(a: DemoStats)
    ensures
        a@.merge(StatsModel::zero()) == a@,
        StatsModel::zero().merge(a@) == a@,
{
}

/// Merging well-formed statistics gives well-formed statistics.
pub proof fn lemma_merge_wf(a: StatsModel, b: StatsModel)
    requires
        a.wf(),
        b.wf(),
    ensures
        a.merge(b).wf(),
{
}

/// The field-wise sum of a sequence of statistics, merged left to right.
pub open spec fn total_of(s: Seq<StatsModel>) -> StatsModel
    decreases s.len(),
{
    if s.len() == 0 {
        StatsModel::zero()
    } else {
        total_of(s.drop_last()).merge(s.last())
    }
}

/// Taking one element out of a sequence takes exactly it out of the total.
proof fn lemma_total_remove(s: Seq<StatsModel>, i: int)
    requires
        0 <= i < s.len(),
    ensures
        total_of(s) == total_of(s.remove(i)).merge(s[i]),
    decreases s.len(),
{
    if i == s.len() - 1 {
        assert(s.remove(i) =~= s.drop_last());
    } else {
        let r = s.remove(i);
        lemma_total_remove(s.drop_last(), i);
        assert(r.drop_last() =~= s.drop_last().remove(i));
        assert(r.last() == s.last());
    }
}

/// Merging child results in any order gives the same totals: two sequences
/// with the same elements, counted with multiplicity, have the same total.
pub proof fn lemma_total_any_order(s1: Seq<StatsModel>, s2: Seq<StatsModel>)
    requires
        s1.to_multiset() == s2.to_multiset(),
    ensures
        total_of(s1) == total_of(s2),
    decreases s1.len(),
{
    broadcast use vstd::seq_lib::group_to_multiset_ensures;

    if s1.len() == 0 {
        assert(s2.to_multiset().len() == 0);
    } else {
        let x = s1.last();
        let rest = s1.drop_last();
        assert(rest.push(x) =~= s1);
        assert(s1.to_multiset().count(x) > 0);
        assert(s2.contains(x));
        let i = choose|i: int| 0 <= i < s2.len() && s2[i] == x;
        assert(rest.to_multiset() =~= s2.remove(i).to_multiset());
        lemma_total_any_order(rest, s2.remove(i));
        lemma_total_remove(s2, i);
    }
}

} // verus!
