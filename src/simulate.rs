use vstd::prelude::*;
use rand::rngs::StdRng;
use crate::estimate::{sorted, Error, Estimate};
use crate::estimator::{all_valid, summarize, Estimator, Statistic};
use crate::resample::resample;

verus! {

/// How often a target statistic stood above and below replicate values.
#[derive(Clone, Copy, Debug, PartialEq, Eq, Structural)]
pub struct Tally {
    pub greater: u64,
    pub less: u64,
}

/// The outcome of a simulation for one estimator.
#[derive(Debug)]
pub struct EstimatorResult {
    pub name: String,
    /// The estimator on the whole baseline.
    pub baseline_statistic: Estimate,
    /// The estimator on the whole target.
    pub target_statistic: Estimate,
    pub iteration_count: u64,
    /// Replicates whose value lay strictly below the target statistic.
    pub count_target_greater: u64,
    /// Replicates whose value lay strictly above the target statistic.
    pub count_target_less: u64,
}

/// The target statistic `t` lies strictly above statistic `st` of sample `s`.
pub open spec fn target_above(t: Estimate, st: Statistic, s: Seq<i64>) -> bool {
    st.num_of(s) * t.den < t.num * st.den_of(s.len() as int)
}

/// The target statistic `t` lies strictly below statistic `st` of sample `s`.
pub open spec fn target_below(t: Estimate, st: Statistic, s: Seq<i64>) -> bool {
    t.num * st.den_of(s.len() as int) < st.num_of(s) * t.den
}

/// With a common positive denominator, the order of two rationals is the
/// order of their numerators.
proof fn lemma_common_den_order(a: int, b: int, d: int)
    requires
        d > 0,
    ensures
        a * d < b * d <==> a < b,
{
    if a < b {
        assert(a * d < b * d) by (nonlinear_arith)
            requires
                a < b,
                d > 0,
        ;
    } else {
        assert(b * d <= a * d) by (nonlinear_arith)
            requires
                b <= a,
                d > 0,
        ;
    }
}

/// Counts one replicate: for each estimator, bumps `greater` when the target
/// statistic lies strictly above the estimator's value on the replicate and
/// `less` when it lies strictly below; ties change neither.
pub fn tally_replicate(
    estimators: &Vec<Estimator>,
    targets: &Vec<Estimate>,
    replicate: &Vec<i64>,
    tallies: &mut Vec<Tally>,
)
    requires
        sorted(replicate@),
        replicate@.len() > 0,
        all_valid(estimators@),
        targets@.len() == estimators@.len(),
        old(tallies)@.len() == estimators@.len(),
        forall|k: int|
            0 <= k < targets@.len() ==> (#[trigger] targets@[k]).den
                == estimators@[k].statistic.den_of(replicate@.len() as int),
        forall|k: int|
            0 <= k < old(tallies)@.len() ==> (#[trigger] old(tallies)@[k]).greater < u64::MAX
                && old(tallies)@[k].less < u64::MAX,
    ensures
        final(tallies)@.len() == old(tallies)@.len(),
        forall|k: int|
            0 <= k < final(tallies)@.len() ==> {
                let st = estimators@[k].statistic;
                &&& (#[trigger] final(tallies)@[k]).greater == old(tallies)@[k].greater + if target_above(
                    targets@[k],
                    st,
                    replicate@,
                ) {
                    1int
                } else {
                    0int
                }
                &&& final(tallies)@[k].less == old(tallies)@[k].less + if target_below(
                    targets@[k],
                    st,
                    replicate@,
                ) {
                    1int
                } else {
                    0int
                }
            },
{
    let ghost before = tallies@;
    let mut k: usize = 0;
    while k < estimators.len()
        invariant
            k <= estimators@.len(),
            tallies@.len() == before.len(),
            before.len() == estimators@.len(),
            targets@.len() == estimators@.len(),
            sorted(replicate@),
            replicate@.len() > 0,
            all_valid(estimators@),
            forall|j: int|
                0 <= j < targets@.len() ==> (#[trigger] targets@[j]).den
                    == estimators@[j].statistic.den_of(replicate@.len() as int),
            forall|j: int|
                0 <= j < before.len() ==> (#[trigger] before[j]).greater < u64::MAX && before[j].less
                    < u64::MAX,
            forall|j: int| k <= j < tallies@.len() ==> #[trigger] tallies@[j] == before[j],
            forall|j: int|
                0 <= j < k ==> {
                    let st = estimators@[j].statistic;
                    &&& (#[trigger] tallies@[j]).greater == before[j].greater + if target_above(
                        targets@[j],
                        st,
                        replicate@,
                    ) {
                        1int
                    } else {
                        0int
                    }
                    &&& tallies@[j].less == before[j].less + if target_below(
                        targets@[j],
                        st,
                        replicate@,
                    ) {
                        1int
                    } else {
                        0int
                    }
                },
        decreases estimators.len() - k,
    {
        assert(estimators@[k as int].statistic.valid());
        let sim = estimators[k].evaluate(replicate);
        if let Ok(v) = sim {
            let t = targets[k];
            let ghost d = v.den as int;
            assert(d > 0);
            proof {
                lemma_common_den_order(v.num as int, t.num as int, d);
                lemma_common_den_order(t.num as int, v.num as int, d);
            }
            let mut c = tallies[k];
            if t.num > v.num {
                c.greater = c.greater + 1;
            } else if t.num < v.num {
                c.less = c.less + 1;
            }
            tallies.set(k, c);
        }
        k = k + 1;
    }
}

/// Runs `iterations` bootstrap replicates of the target's size drawn from the
/// baseline, and reports for each estimator its value on the full baseline and
/// on the full target and how the target's value compared with each
/// replicate's. Fails with `InvalidArgument` when a sample is empty or an
/// estimator is invalid.
pub fn simulate(
    iterations: u64,
    baseline: &Vec<i64>,
    target: &Vec<i64>,
    estimators: &Vec<Estimator>,
    rng: &mut StdRng,
) -> (r: Result<Vec<EstimatorResult>, Error>)
    requires
        sorted(baseline@),
        sorted(target@),
    ensures
        (baseline@.len() > 0 && target@.len() > 0 && all_valid(estimators@)) <==> r is Ok,
        r is Err ==> r == Err::<Vec<EstimatorResult>, Error>(Error::InvalidArgument),
        r matches Ok(v) ==> v@.len() == estimators@.len() && forall|k: int|
            0 <= k < v@.len() ==> {
                let e = #[trigger] v@[k];
                let st = estimators@[k].statistic;
                &&& e.name@ == estimators@[k].name@
                &&& st.gives(baseline@, e.baseline_statistic)
                &&& st.gives(target@, e.target_statistic)
                &&& e.iteration_count == iterations
                &&& e.count_target_greater + e.count_target_less <= iterations
            },
{
    if baseline.len() == 0 || target.len() == 0 {
        return Err(Error::InvalidArgument);
    }
    let base_stats = match summarize(baseline, estimators) {
        Ok(s) => s,
        Err(e) => return Err(e),
    };
    let target_stats = match summarize(target, estimators) {
        Ok(s) => s,
        Err(e) => return Err(e),
    };
    let m = estimators.len();
    let mut tallies: Vec<Tally> = Vec::with_capacity(m);
    let mut k: usize = 0;
    while k < m
        invariant
            k <= m,
            tallies@.len() == k,
            forall|j: int| 0 <= j < k ==> #[trigger] tallies@[j] == (Tally { greater: 0, less: 0 }),
        decreases m - k,
    {
        tallies.push(Tally { greater: 0, less: 0 });
        k = k + 1;
    }
    let mut it: u64 = 0;
    while it < iterations
        invariant
            it <= iterations,
            sorted(baseline@),
            baseline@.len() > 0,
            target@.len() > 0,
            all_valid(estimators@),
            tallies@.len() == m,
            m == estimators@.len(),
            target_stats@.len() == m,
            forall|j: int|
                0 <= j < m ==> estimators@[j].statistic.gives(target@, #[trigger] target_stats@[j]),
            forall|j: int|
                0 <= j < m ==> (#[trigger] tallies@[j]).greater + tallies@[j].less <= it,
        decreases iterations - it,
    {
        let replicate = resample(baseline, target.len(), rng);
        tally_replicate(estimators, &target_stats, &replicate, &mut tallies);
        it = it + 1;
    }
    let mut out: Vec<EstimatorResult> = Vec::with_capacity(m);
    let mut k: usize = 0;
    while k < m
        invariant
            k <= m,
            m == estimators@.len(),
            base_stats@.len() == m,
            target_stats@.len() == m,
            tallies@.len() == m,
            out@.len() == k,
            forall|j: int|
                0 <= j < m ==> estimators@[j].statistic.gives(baseline@, #[trigger] base_stats@[j]),
            forall|j: int|
                0 <= j < m ==> estimators@[j].statistic.gives(target@, #[trigger] target_stats@[j]),
            forall|j: int|
                0 <= j < m ==> (#[trigger] tallies@[j]).greater + tallies@[j].less <= iterations,
            forall|j: int|
                0 <= j < k ==> {
                    let e = #[trigger] out@[j];
                    let st = estimators@[j].statistic;
                    &&& e.name@ == estimators@[j].name@
                    &&& st.gives(baseline@, e.baseline_statistic)
                    &&& st.gives(target@, e.target_statistic)
                    &&& e.iteration_count == iterations
                    &&& e.count_target_greater + e.count_target_less <= iterations
                },
        decreases m - k,
    {
        let c = tallies[k];
        out.push(
            EstimatorResult {
                name: estimators[k].name.clone(),
                baseline_statistic: base_stats[k],
                target_statistic: target_stats[k],
                iteration_count: iterations,
                count_target_greater: c.greater,
                count_target_less: c.less,
            },
        );
        k = k + 1;
    }
    Ok(out)
}

} // verus!
