use vstd::prelude::*;
use crate::estimate::{sorted, Error, Estimate, Fraction};
use crate::quantile::{quantile, quantile_den, quantile_num};

verus! {

/// The sum of a sample's values.
pub open spec fn sum_of(s: Seq<i64>) -> int
    decreases s.len(),
{
    if s.len() == 0 {
        0
    } else {
        sum_of(s.drop_last()) + s.last()
    }
}

/// The arithmetic mean `sum / count` of a non-empty sample, as an exact
/// rational. Fails with `InvalidArgument` on an empty sample.
pub fn mean(xs: &Vec<i64>) -> (r: Result<Estimate, Error>)
    ensures
        xs@.len() > 0 <==> r is Ok,
        r is Err ==> r == Err::<Estimate, Error>(Error::InvalidArgument),
        r matches Ok(e) ==> e.num == sum_of(xs@) && e.den == xs@.len(),
{
    if xs.len() == 0 {
        return Err(Error::InvalidArgument);
    }
    let mut sum: i128 = 0;
    let mut k: usize = 0;
    while k < xs.len()
        invariant
            k <= xs@.len(),
            sum == sum_of(xs@.subrange(0, k as int)),
            -0x8000_0000_0000_0000 * k <= sum <= 0x7fff_ffff_ffff_ffff * k,
        decreases xs.len() - k,
    {
        assert(xs@.subrange(0, k + 1).drop_last() =~= xs@.subrange(0, k as int));
        assert(k + 1 <= 0x1_0000_0000_0000_0000);
        assert(0x7fff_ffff_ffff_ffff * (k + 1) < 0x7fff_ffff_ffff_ffff_ffff_ffff_ffff_ffff)
            by (nonlinear_arith)
            requires
                k + 1 <= 0x1_0000_0000_0000_0000,
        ;
        assert(-0x8000_0000_0000_0000 * (k + 1) >= -0x8000_0000_0000_0000_0000_0000_0000_0000)
            by (nonlinear_arith)
            requires
                k + 1 <= 0x1_0000_0000_0000_0000,
        ;
        sum = sum + xs[k] as i128;
        k = k + 1;
    }
    assert(xs@.subrange(0, xs@.len() as int) =~= xs@);
    Ok(Estimate { num: sum, den: xs.len() as u128 })
}

/// What an estimator computes from a sample.
#[derive(Clone, Copy, Debug, PartialEq, Eq, Structural)]
pub enum Statistic {
    /// The arithmetic mean.
    Mean,
    /// The interpolated quantile at the given level.
    Quantile(Fraction),
}

impl Statistic {
    /// The statistic can be computed on every non-empty sample.
    pub open spec fn valid(self) -> bool {
        match self {
            Statistic::Mean => true,
            Statistic::Quantile(q) => q.is_level(),
        }
    }

    /// Numerator of the statistic on sample `s`.
    pub open spec fn num_of(self, s: Seq<i64>) -> int {
        match self {
            Statistic::Mean => sum_of(s),
            Statistic::Quantile(q) => quantile_num(s, q),
        }
    }

    /// Denominator of the statistic on a sample of `n` values.
    pub open spec fn den_of(self, n: int) -> int {
        match self {
            Statistic::Mean => n,
            Statistic::Quantile(q) => quantile_den(n, q),
        }
    }

    /// `e` is the value of this statistic on sample `s`.
    pub open spec fn gives(self, s: Seq<i64>, e: Estimate) -> bool {
        e.num == self.num_of(s) && e.den == self.den_of(s.len() as int)
    }
}

/// A named statistic.
#[derive(Debug)]
pub struct Estimator {
    pub name: String,
    pub statistic: Statistic,
}

/// Every estimator of the list can be computed on a non-empty sample.
pub open spec fn all_valid(es: Seq<Estimator>) -> bool {
    forall|k: int| 0 <= k < es.len() ==> (#[trigger] es[k]).statistic.valid()
}

impl Estimator {
    /// The estimator's value on a sorted sample. Fails with
    /// `InvalidArgument` on an empty sample or an invalid statistic.
    pub fn evaluate(&self, xs: &Vec<i64>) -> (r: Result<Estimate, Error>)
        requires
            sorted(xs@),
        ensures
            (xs@.len() > 0 && self.statistic.valid()) <==> r is Ok,
            r is Err ==> r == Err::<Estimate, Error>(Error::InvalidArgument),
            r matches Ok(e) ==> self.statistic.gives(xs@, e),
    {
        match self.statistic {
            Statistic::Mean => mean(xs),
            Statistic::Quantile(q) => quantile(xs, q),
        }
    }
}

/// The standard registry, in display order: `avg`, `min`, `p50`, `p75`,
/// `p90`, `p95`, `p99`, `max`.
pub fn standard_estimators() -> (r: Vec<Estimator>)
    ensures
        r@.len() == 8,
        r@[0].name@ == "avg"@ && r@[0].statistic == Statistic::Mean,
        r@[1].name@ == "min"@ && r@[1].statistic == Statistic::Quantile(Fraction { num: 0, den: 1 }),
        r@[2].name@ == "p50"@ && r@[2].statistic == Statistic::Quantile(Fraction { num: 1, den: 2 }),
        r@[3].name@ == "p75"@ && r@[3].statistic == Statistic::Quantile(Fraction { num: 3, den: 4 }),
        r@[4].name@ == "p90"@ && r@[4].statistic == Statistic::Quantile(
            Fraction { num: 9, den: 10 },
        ),
        r@[5].name@ == "p95"@ && r@[5].statistic == Statistic::Quantile(
            Fraction { num: 19, den: 20 },
        ),
        r@[6].name@ == "p99"@ && r@[6].statistic == Statistic::Quantile(
            Fraction { num: 99, den: 100 },
        ),
        r@[7].name@ == "max"@ && r@[7].statistic == Statistic::Quantile(Fraction { num: 1, den: 1 }),
        all_valid(r@),
{
    let r = vec![
        Estimator { name: "avg".to_string(), statistic: Statistic::Mean },
        Estimator { name: "min".to_string(), statistic: Statistic::Quantile(Fraction { num: 0, den: 1 }) },
        Estimator { name: "p50".to_string(), statistic: Statistic::Quantile(Fraction { num: 1, den: 2 }) },
        Estimator { name: "p75".to_string(), statistic: Statistic::Quantile(Fraction { num: 3, den: 4 }) },
        Estimator { name: "p90".to_string(), statistic: Statistic::Quantile(Fraction { num: 9, den: 10 }) },
        Estimator { name: "p95".to_string(), statistic: Statistic::Quantile(Fraction { num: 19, den: 20 }) },
        Estimator { name: "p99".to_string(), statistic: Statistic::Quantile(Fraction { num: 99, den: 100 }) },
        Estimator { name: "max".to_string(), statistic: Statistic::Quantile(Fraction { num: 1, den: 1 }) },
    ];
    assert(all_valid(r@));
    r
}

/// Every estimator's value on one sorted sample, in the estimators' order.
/// Fails with `InvalidArgument` when the sample is empty or an estimator is
/// invalid.
pub fn summarize(xs: &Vec<i64>, estimators: &Vec<Estimator>) -> (r: Result<Vec<Estimate>, Error>)
    requires
        sorted(xs@),
    ensures
        (xs@.len() > 0 && all_valid(estimators@)) <==> r is Ok,
        r is Err ==> r == Err::<Vec<Estimate>, Error>(Error::InvalidArgument),
        r matches Ok(v) ==> v@.len() == estimators@.len() && forall|k: int|
            0 <= k < v@.len() ==> estimators@[k].statistic.gives(xs@, #[trigger] v@[k]),
{
    if xs.len() == 0 {
        return Err(Error::InvalidArgument);
    }
    let mut out: Vec<Estimate> = Vec::new();
    let mut k: usize = 0;
    while k < estimators.len()
        invariant
            k <= estimators@.len(),
            xs@.len() > 0,
            sorted(xs@),
            out@.len() == k,
            forall|j: int| 0 <= j < k ==> estimators@[j].statistic.valid(),
            forall|j: int| 0 <= j < k ==> estimators@[j].statistic.gives(xs@, #[trigger] out@[j]),
        decreases estimators.len() - k,
    {
        match estimators[k].evaluate(xs) {
            Ok(e) => out.push(e),
            Err(err) => return Err(err),
        }
        k = k + 1;
    }
    Ok(out)
}

} // verus!
