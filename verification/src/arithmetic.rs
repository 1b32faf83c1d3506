//! The arithmetic a chart rests on: the numbers it is owed on, and what it came to.
//!
//! The library carries numbers as they were written. The sums of an `Arc` and the buckets of a
//! `Histogram` take arithmetic on the numbers themselves: [`Terms`] hold those numbers, and
//! [`Computed`] holds what was computed from them, from which the resolver draws.

use crate::dsl::Sign;
use crate::numeral::Number;
use crate::views;
use vstd::prelude::*;

verus! {

/// The numbers a histogram sorts into equal-width buckets, and how many buckets there are.
#[derive(Debug, PartialEq, Eq)]
pub struct Samples {
    pub values: Vec<Number>,
    pub bins: usize,
}

/// What [`Samples`] hold.
#[verifier::ext_equal]
pub struct SamplesModel {
    pub values: Seq<Seq<char>>,
    pub bins: int,
}

impl View for Samples {
    type V = SamplesModel;

    open spec fn view(&self) -> SamplesModel {
        SamplesModel { values: views::views(self.values@), bins: self.bins as int }
    }
}

/// The numbers that a chart needs arithmetic on.
#[derive(Debug, PartialEq, Eq)]
pub struct Terms {
    /// What a `Histogram` sorts into buckets; `None` for other marks.
    pub samples: Option<Samples>,
    /// The numbers an `Arc` adds up for each of its slices; none for other marks.
    pub groups: Vec<Vec<Number>>,
}

/// What [`Terms`] hold.
#[verifier::ext_equal]
pub struct TermsModel {
    pub samples: Option<SamplesModel>,
    pub groups: Seq<Seq<Seq<char>>>,
}

/// The contents of groups of numbers.
pub open spec fn group_views(groups: Seq<Vec<Number>>) -> Seq<Seq<Seq<char>>> {
    groups.map_values(|g: Vec<Number>| views::views(g@))
}

impl View for Terms {
    type V = TermsModel;

    open spec fn view(&self) -> TermsModel {
        TermsModel {
            samples: views::opt_view(self.samples),
            groups: group_views(self.groups@),
        }
    }
}

/// How samples were sorted: the bucket that each was computed to fall into, and the center of
/// each bucket. The largest value may be computed to fall past the last bucket.
#[derive(Debug, PartialEq, Eq)]
pub struct Binning {
    pub landed: Vec<usize>,
    pub centers: Vec<Number>,
}

/// What a [`Binning`] holds.
#[verifier::ext_equal]
pub struct BinningModel {
    pub landed: Seq<usize>,
    pub centers: Seq<Seq<char>>,
}

impl View for Binning {
    type V = BinningModel;

    open spec fn view(&self) -> BinningModel {
        BinningModel { landed: self.landed@, centers: views::views(self.centers@) }
    }
}

/// What the numbers of a group add up to, and where that lies relative to zero.
#[derive(Debug, PartialEq, Eq)]
pub struct Sum {
    pub value: Number,
    pub sign: Sign,
}

/// What a [`Sum`] says.
#[verifier::ext_equal]
pub struct SumModel {
    pub value: Seq<char>,
    pub sign: Sign,
}

impl View for Sum {
    type V = SumModel;

    open spec fn view(&self) -> SumModel {
        SumModel { value: self.value@, sign: self.sign }
    }
}

/// What was computed from the [`Terms`] of a chart.
#[derive(Debug, PartialEq, Eq)]
pub struct Computed {
    /// How the samples were sorted; `None` where they span no finite range.
    pub binning: Option<Binning>,
    /// The sum of each group.
    pub sums: Vec<Sum>,
}

/// What [`Computed`] holds.
#[verifier::ext_equal]
pub struct ComputedModel {
    pub binning: Option<BinningModel>,
    pub sums: Seq<SumModel>,
}

impl View for Computed {
    type V = ComputedModel;

    open spec fn view(&self) -> ComputedModel {
        ComputedModel {
            binning: views::opt_view(self.binning),
            sums: views::views(self.sums@),
        }
    }
}

impl Default for Computed {
    /// Nothing computed: all that a chart without [`Terms`] needs.
    fn default() -> (r: Self)
        ensures
            r@ == (ComputedModel { binning: None, sums: seq![] }),
    {
        let r = Computed { binning: None, sums: Vec::new() };
        assert(r@.sums =~= seq![]);
        r
    }
}

// --- Counting ---------------------------------------------------------------------

/// Whether a binning is one of the samples: there is a sample, each has landed somewhere, and
/// there are as many buckets as were asked for, or one, where all samples are equal.
pub open spec fn sorts(binning: BinningModel, samples: SamplesModel) -> bool {
    &&& samples.values.len() > 0
    &&& binning.landed.len() == samples.values.len()
    &&& binning.centers.len() > 0
    &&& binning.centers.len() == samples.bins || binning.centers.len() == 1
}

/// Whether a binning is one of the samples.
pub fn is_binning_of(binning: &Binning, samples: &Samples) -> (r: bool)
    ensures
        r == sorts(binning@, samples@),
{
    assert(samples@.values.len() == samples.values.len());
    assert(binning@.centers.len() == binning.centers.len());
    samples.values.len() > 0 && binning.landed.len() == samples.values.len()
        && binning.centers.len() > 0 && (binning.centers.len() == samples.bins
        || binning.centers.len() == 1)
}

/// How many of the first `n` numbers fall into bucket `b`, given the bucket each was computed to
/// fall into. A bucket past the last one is the last one.
pub open spec fn tallied(buckets: Seq<usize>, bins: int, b: int, n: int) -> int
    decreases n,
{
    if n <= 0 {
        0
    } else {
        tallied(buckets, bins, b, n - 1) + if b == landing(buckets[n - 1], bins) {
            1int
        } else {
            0
        }
    }
}

/// The bucket a number counts in, of those there are.
pub open spec fn landing(bucket: usize, bins: int) -> int {
    if bucket >= bins {
        bins - 1
    } else {
        bucket as int
    }
}

/// Count the numbers in each bucket, given the bucket each was computed to fall into. The
/// maximum value is computed to fall past the last bucket, and lands in it.
pub fn tally_bins(buckets: &Vec<usize>, bins: usize) -> (r: Vec<usize>)
    requires
        bins > 0,
    ensures
        r.len() == bins,
        forall|b: int|
            0 <= b < bins ==> #[trigger] r@[b] == tallied(
                buckets@,
                bins as int,
                b,
                buckets.len() as int,
            ),
{
    let mut counts: Vec<usize> = Vec::new();
    let mut k: usize = 0;
    while k < bins
        invariant
            k <= bins,
            counts.len() == k,
            forall|b: int| 0 <= b < k ==> #[trigger] counts@[b] == 0,
        decreases bins - k,
    {
        counts.push(0);
        k = k + 1;
    }
    let mut i: usize = 0;
    while i < buckets.len()
        invariant
            i <= buckets.len(),
            bins > 0,
            counts.len() == bins,
            forall|b: int|
                0 <= b < bins ==> #[trigger] counts@[b] == tallied(
                    buckets@,
                    bins as int,
                    b,
                    i as int,
                ) && counts@[b] <= i,
        decreases buckets.len() - i,
    {
        let b: usize = if buckets[i] >= bins {
            bins - 1
        } else {
            buckets[i]
        };
        let count: usize = counts[b];
        assert(count <= i);
        counts[b] = count + 1;
        i = i + 1;
    }
    counts
}

/// The sum of the counts of the first `k` buckets.
pub open spec fn tally_sum(buckets: Seq<usize>, bins: int, k: int, n: int) -> int
    decreases k,
{
    if k <= 0 {
        0
    } else {
        tally_sum(buckets, bins, k - 1, n) + tallied(buckets, bins, k - 1, n)
    }
}

proof fn lemma_tally_sum_step(buckets: Seq<usize>, bins: int, k: int, n: int)
    requires
        0 <= k <= bins,
        bins > 0,
        0 < n <= buckets.len(),
    ensures
        tally_sum(buckets, bins, k, n) == tally_sum(buckets, bins, k, n - 1) + (if landing(
            buckets[n - 1],
            bins,
        ) < k {
            1int
        } else {
            0
        }),
    decreases k,
{
    if k > 0 {
        lemma_tally_sum_step(buckets, bins, k - 1, n);
    }
}

proof fn lemma_tally_sum_start(buckets: Seq<usize>, bins: int, k: int)
    ensures
        tally_sum(buckets, bins, k, 0) == 0,
    decreases k,
{
    if k > 0 {
        lemma_tally_sum_start(buckets, bins, k - 1);
    }
}

/// Every number is counted in exactly one bucket: the counts add up to how many there are.
pub proof fn law_every_number_is_counted(buckets: Seq<usize>, bins: int, n: int)
    requires
        bins > 0,
        0 <= n <= buckets.len(),
    ensures
        tally_sum(buckets, bins, bins, n) == n,
    decreases n,
{
    if n > 0 {
        law_every_number_is_counted(buckets, bins, n - 1);
        lemma_tally_sum_step(buckets, bins, bins, n);
    } else {
        lemma_tally_sum_start(buckets, bins, bins);
    }
}

} // verus!
