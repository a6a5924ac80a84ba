use vstd::prelude::*;

verus! {

/// A half-open bucket interval in millionths: a bucket `b` falls in
/// the range when `start <= b < end`.
#[derive(Clone, Copy, PartialEq, Eq, Structural, Debug)]
pub struct Range {
    pub start: i64,
    pub end: i64,
}

/// Whether a bucket lies in a range.
pub open spec fn spec_in_range(b: int, r: Range) -> bool {
    r.start <= b < r.end
}

impl Range {
    /// Whether the bucket lies in this range.
    pub fn in_range(&self, bucket: u32) -> (r: bool)
        ensures
            r == spec_in_range(bucket as int, *self),
    {
        self.start <= bucket as i64 && (bucket as i64) < self.end
    }
}

/// Index of the first range that holds the bucket, or -1 when none does.
pub open spec fn spec_choose_variation(b: int, rs: Seq<Range>) -> int
    decreases rs.len(),
{
    if rs.len() == 0 {
        -1
    } else if spec_in_range(b, rs[0]) {
        0
    } else {
        let t = spec_choose_variation(b, rs.skip(1));
        if t < 0 {
            -1
        } else {
            t + 1
        }
    }
}

/// The chosen index lies in the list and is the first whose interval
/// holds the bucket; -1 means no interval does.
pub proof fn lemma_choose_variation_props(b: int, rs: Seq<Range>)
    ensures
        spec_choose_variation(b, rs) == -1 || 0 <= spec_choose_variation(b, rs) < rs.len(),
        spec_choose_variation(b, rs) == -1 ==> forall|i: int|
            0 <= i < rs.len() ==> !spec_in_range(b, rs[i]),
        spec_choose_variation(b, rs) >= 0 ==> spec_in_range(b, rs[spec_choose_variation(b, rs)])
            && forall|j: int| 0 <= j < spec_choose_variation(b, rs) ==> !spec_in_range(b, rs[j]),
    decreases rs.len(),
{
    if rs.len() > 0 && !spec_in_range(b, rs[0]) {
        lemma_choose_variation_props(b, rs.skip(1));
        let t = spec_choose_variation(b, rs.skip(1));
        if t < 0 {
            assert forall|i: int| 0 <= i < rs.len() implies !spec_in_range(b, rs[i]) by {
                if i > 0 {
                    assert(rs.skip(1)[i - 1] == rs[i]);
                }
            }
        } else {
            assert(rs.skip(1)[t] == rs[t + 1]);
            assert forall|j: int| 0 <= j < t + 1 implies !spec_in_range(b, rs[j]) by {
                if j > 0 {
                    assert(rs.skip(1)[j - 1] == rs[j]);
                }
            }
        }
    }
}

/// Index of the first range that holds the bucket, or -1 when none does.
#[verifier::loop_isolation(false)]
pub fn choose_variation(bucket: u32, ranges: &Vec<Range>) -> (r: i64)
    requires
        ranges@.len() < 0x8000000000000000,
    ensures
        r == spec_choose_variation(bucket as int, ranges@),
        r == -1 || 0 <= r < ranges@.len(),
        r == -1 ==> forall|i: int| 0 <= i < ranges@.len() ==> !spec_in_range(bucket as int, ranges@[i]),
        r >= 0 ==> spec_in_range(bucket as int, ranges@[r as int]) && forall|j: int|
            0 <= j < r ==> !spec_in_range(bucket as int, ranges@[j]),
{
    proof {
        lemma_choose_variation_props(bucket as int, ranges@);
        assert(ranges@.skip(0) =~= ranges@);
    }
    let mut i: usize = 0;
    while i < ranges.len()
        invariant
            i <= ranges@.len(),
            forall|j: int| 0 <= j < i ==> !spec_in_range(bucket as int, ranges@[j]),
            spec_choose_variation(bucket as int, ranges@) == (if spec_choose_variation(
                bucket as int,
                ranges@.skip(i as int),
            ) < 0 {
                -1int
            } else {
                spec_choose_variation(bucket as int, ranges@.skip(i as int)) + i
            }),
        decreases ranges@.len() - i,
    {
        proof {
            assert(ranges@.skip(i as int)[0] == ranges@[i as int]);
            assert(ranges@.skip(i as int).skip(1) =~= ranges@.skip(i as int + 1));
            lemma_choose_variation_props(bucket as int, ranges@.skip(i as int + 1));
        }
        if ranges[i].in_range(bucket) {
            return i as i64;
        }
        i += 1;
    }
    proof {
        assert(ranges@.skip(ranges@.len() as int) =~= Seq::<Range>::empty());
    }
    -1
}

/// Whether the ranges are ordered and pairwise disjoint.
pub open spec fn spec_ranges_disjoint(rs: Seq<Range>) -> bool {
    forall|i: int, j: int| 0 <= i < j < rs.len() ==> rs[i].end <= rs[j].start
}

/// Over ordered disjoint ranges, at most one range holds a given
/// bucket, so the index that `choose_variation` returns is the only
/// one whose interval contains it.
pub proof fn lemma_choose_variation_unique(b: int, rs: Seq<Range>, i: int, j: int)
    requires
        spec_ranges_disjoint(rs),
        0 <= i < rs.len(),
        0 <= j < rs.len(),
        spec_in_range(b, rs[i]),
        spec_in_range(b, rs[j]),
    ensures
        i == j,
{
    if i < j {
        assert(rs[i].end <= rs[j].start);
    } else if j < i {
        assert(rs[j].end <= rs[i].start);
    }
}

/// Where the bucket range of variation `i` starts: the sum of the
/// weights before it.
pub open spec fn spec_range_start(ws: Seq<int>, i: int) -> int
    decreases i,
{
    if i <= 0 {
        0
    } else {
        spec_range_start(ws, i - 1) + ws[i - 1]
    }
}

/// The equal weight of each of `n` variations, in millionths.
pub open spec fn spec_equal_weight(n: nat) -> int {
    1000000int / (n as int)
}

/// A weight list in millionths: one entry per variation, each within
/// the unit interval, summing to one within one percent.
pub open spec fn spec_weights_valid(ws: Seq<int>, n: nat) -> bool {
    ws.len() == n && (forall|i: int| 0 <= i < ws.len() ==> 0 <= #[trigger] ws[i] <= 1000000)
        && 990000 <= spec_sum(ws) <= 1010000
}

/// Sum of a sequence of integers.
pub open spec fn spec_sum(ws: Seq<int>) -> int
    decreases ws.len(),
{
    if ws.len() == 0 {
        0
    } else {
        ws[0] + spec_sum(ws.skip(1))
    }
}

/// The weight values of a vector, as mathematical integers.
pub open spec fn spec_weight_ints(ws: Seq<i64>) -> Seq<int> {
    Seq::new(ws.len(), |i: int| ws[i] as int)
}

/// Checks that a weight list has one entry per variation, entries in
/// the unit interval, and a sum within one percent of one.
#[verifier::loop_isolation(false)]
pub fn weights_valid(ws: &Vec<i64>, n: usize) -> (r: bool)
    ensures
        r == spec_weights_valid(spec_weight_ints(ws@), n as nat),
{
    let ghost model = spec_weight_ints(ws@);
    if ws.len() != n {
        return false;
    }
    let mut i: usize = 0;
    let mut sum: i64 = 0;
    proof {
        assert(model.skip(0) =~= model);
    }
    while i < ws.len()
        invariant
            i <= ws@.len(),
            model.len() == ws@.len(),
            forall|k: int| 0 <= k < i ==> 0 <= #[trigger] model[k] <= 1000000,
            0 <= sum <= 1010000,
            spec_sum(model) == sum + spec_sum(model.skip(i as int)),
        decreases ws@.len() - i,
    {
        proof {
            assert(model.skip(i as int)[0] == model[i as int]);
            assert(model.skip(i as int).skip(1) =~= model.skip(i as int + 1));
        }
        let w = ws[i];
        if w < 0 || w > 1000000 {
            return false;
        }
        let grown = sum + w;
        if grown > 1010000 {
            proof {
                if (forall|k: int| 0 <= k < model.len() ==> 0 <= #[trigger] model[k] <= 1000000) {
                    assert forall|k: int|
                        0 <= k < model.skip(i as int + 1).len() implies 0 <= #[trigger] model.skip(
                        i as int + 1,
                    )[k] by {
                        assert(model.skip(i as int + 1)[k] == model[k + i + 1]);
                    }
                    lemma_sum_nonneg_bound(model.skip(i as int + 1));
                }
            }
            return false;
        }
        sum = grown;
        i += 1;
    }
    proof {
        assert(model.skip(ws@.len() as int) =~= Seq::<int>::empty());
    }
    990000 <= sum && sum <= 1010000
}

/// A list of `n` equal weights.
#[verifier::loop_isolation(false)]
pub fn equal_weights(n: usize) -> (r: Vec<i64>)
    requires
        0 < n <= 1000000,
    ensures
        spec_weight_ints(r@) == Seq::new(n as nat, |i: int| spec_equal_weight(n as nat)),
{
    let w: i64 = 1000000 / (n as i64);
    let mut out: Vec<i64> = Vec::new();
    let mut i: usize = 0;
    while i < n
        invariant
            i <= n,
            out@.len() == i,
            forall|k: int| 0 <= k < i ==> out@[k] == w,
            w == spec_equal_weight(n as nat),
        decreases n - i,
    {
        out.push(w);
        i += 1;
    }
    proof {
        assert(spec_weight_ints(out@) =~= Seq::new(n as nat, |i: int| spec_equal_weight(n as nat)));
    }
    out
}

/// Builds the bucket ranges that the weights span under the coverage:
/// variation `i` covers the interval that starts at the sum of the
/// weights before it and is its own weight scaled by the coverage.
#[verifier::loop_isolation(false)]
pub fn build_ranges(ws: &Vec<i64>, coverage: i64) -> (r: Vec<Range>)
    requires
        0 <= coverage <= 1000000,
        forall|i: int| 0 <= i < ws@.len() ==> 0 <= #[trigger] ws@[i] <= 1000000,
        spec_sum(spec_weight_ints(ws@)) <= 1010000,
    ensures
        r@.len() == ws@.len(),
        forall|i: int|
            0 <= i < r@.len() ==> (#[trigger] r@[i]).start == spec_range_start(
                spec_weight_ints(ws@),
                i,
            ) && r@[i].end == spec_range_start(spec_weight_ints(ws@), i) + (coverage as int
                * ws@[i] as int) / 1000000,
{
    let ghost model = spec_weight_ints(ws@);
    let mut out: Vec<Range> = Vec::new();
    let mut cum: i64 = 0;
    let mut i: usize = 0;
    proof {
        assert(model.skip(0) =~= model);
        lemma_sum_nonneg_bound(model);
    }
    while i < ws.len()
        invariant
            i <= ws@.len(),
            model.len() == ws@.len(),
            model == spec_weight_ints(ws@),
            spec_sum(model) <= 1010000,
            out@.len() == i,
            0 <= cum,
            cum == spec_range_start(model, i as int),
            cum + spec_sum(model.skip(i as int)) == spec_sum(model),
            forall|k: int|
                0 <= k < i ==> (#[trigger] out@[k]).start == spec_range_start(model, k)
                    && out@[k].end == spec_range_start(model, k) + (coverage as int * model[k])
                    / 1000000,
        decreases ws@.len() - i,
    {
        proof {
            assert(model.skip(i as int)[0] == model[i as int]);
            assert(model.skip(i as int).skip(1) =~= model.skip(i as int + 1));
            lemma_sum_nonneg_bound(model.skip(i as int + 1));
            assert(0 <= (coverage as int) * (model[i as int]) <= 1000000000000) by (nonlinear_arith)
                requires
                    0 <= coverage <= 1000000,
                    0 <= model[i as int] <= 1000000,
            ;
        }
        let w = ws[i];
        let width: i64 = (coverage * w) / 1000000;
        proof {
            assert((coverage as int * w as int) / 1000000 <= w) by (nonlinear_arith)
                requires
                    0 <= coverage <= 1000000,
                    0 <= w <= 1000000,
            ;
        }
        out.push(Range { start: cum, end: cum + width });
        cum = cum + w;
        i += 1;
    }
    out
}

/// The sum of `n` copies of one value.
pub proof fn lemma_sum_constant(n: nat, w: int)
    ensures
        spec_sum(Seq::new(n, |i: int| w)) == n * w,
    decreases n,
{
    if n > 0 {
        assert(Seq::new(n, |i: int| w).skip(1) =~= Seq::new((n - 1) as nat, |i: int| w));
        lemma_sum_constant((n - 1) as nat, w);
        assert(n * w == w + (n - 1) * w) by (nonlinear_arith);
    } else {
        assert(Seq::new(0, |i: int| w) =~= Seq::<int>::empty());
    }
}

/// A sum of values from the unit interval is at least zero.
pub proof fn lemma_sum_nonneg_bound(ws: Seq<int>)
    requires
        forall|i: int| 0 <= i < ws.len() ==> 0 <= #[trigger] ws[i],
    ensures
        spec_sum(ws) >= 0,
    decreases ws.len(),
{
    if ws.len() > 0 {
        assert(ws.skip(1)[0] == ws[1] || ws.len() == 1);
        assert(forall|i: int| 0 <= i < ws.skip(1).len() ==> 0 <= #[trigger] ws.skip(1)[i]);
        lemma_sum_nonneg_bound(ws.skip(1));
    }
}

} // verus!
