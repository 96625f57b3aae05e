use numcmp::{
    resample, simulate, standard_estimators, summarize, tally_replicate, Error, Estimate,
    Estimator, Fraction, Statistic, Tally,
};
use rand::rngs::StdRng;
use rand::SeedableRng;

fn value(num: i128, den: u128) -> Estimate {
    Estimate { num, den }
}

#[test]
fn registry_order_and_levels() {
    let es = standard_estimators();
    let names: Vec<&str> = es.iter().map(|e| e.name.as_str()).collect();
    assert_eq!(names, vec!["avg", "min", "p50", "p75", "p90", "p95", "p99", "max"]);
    assert_eq!(es[0].statistic, Statistic::Mean);
    assert_eq!(es[3].statistic, Statistic::Quantile(Fraction { num: 3, den: 4 }));
    assert_eq!(es[7].statistic, Statistic::Quantile(Fraction { num: 1, den: 1 }));
}

#[test]
fn summary_of_one_to_ten() {
    let xs: Vec<i64> = (1..=10).collect();
    let v = summarize(&xs, &standard_estimators()).unwrap();
    assert_eq!(v[0], value(55, 10)); // avg 5.5
    assert_eq!(v[1], value(1, 1)); // min
    assert_eq!(v[2], value(11, 2)); // p50: index 4.5 -> 5.5
    assert_eq!(v[3], value(31, 4)); // p75: index 6.75 -> 7.75
    assert_eq!(v[4], value(91, 10)); // p90: index 8.1 -> 9.1
    assert_eq!(v[7], value(10, 1)); // max
}

#[test]
fn summary_rejects_empty_sample_and_bad_estimator() {
    assert_eq!(summarize(&vec![], &standard_estimators()), Err(Error::InvalidArgument));
    let bad = vec![Estimator {
        name: "p110".to_string(),
        statistic: Statistic::Quantile(Fraction { num: 11, den: 10 }),
    }];
    assert_eq!(summarize(&vec![1, 2], &bad), Err(Error::InvalidArgument));
}

#[test]
fn resample_draws_only_baseline_values() {
    let baseline = vec![3, 8, 8, 21, 40];
    let mut rng = StdRng::seed_from_u64(7);
    for size in [0usize, 1, 5, 37] {
        let r = resample(&baseline, size, &mut rng);
        assert_eq!(r.len(), size);
        assert!(r.windows(2).all(|w| w[0] <= w[1]));
        assert!(r.iter().all(|x| baseline.contains(x)));
    }
}

#[test]
fn resample_reaches_more_than_one_index() {
    let baseline = vec![1, 2, 3, 4, 5, 6, 7, 8];
    let mut rng = StdRng::seed_from_u64(11);
    let r = resample(&baseline, 200, &mut rng);
    assert!(r[0] < r[199]);
}

#[test]
fn resample_is_reproducible_with_a_seed() {
    let baseline = vec![1, 5, 9, 13, 17];
    let a = resample(&baseline, 50, &mut StdRng::seed_from_u64(3));
    let b = resample(&baseline, 50, &mut StdRng::seed_from_u64(3));
    assert_eq!(a, b);
}

#[test]
fn tally_counts_above_below_and_ties() {
    let es = vec![
        Estimator { name: "avg".to_string(), statistic: Statistic::Mean },
        Estimator { name: "max".to_string(), statistic: Statistic::Quantile(Fraction { num: 1, den: 1 }) },
        Estimator { name: "min".to_string(), statistic: Statistic::Quantile(Fraction { num: 0, den: 1 }) },
    ];
    // replicate [2, 4]: avg 6/2, max 4, min 2
    let targets = vec![value(7, 2), value(3, 1), value(2, 1)];
    let mut tallies = vec![Tally { greater: 0, less: 0 }; 3];
    tally_replicate(&es, &targets, &vec![2, 4], &mut tallies);
    assert_eq!(tallies[0], Tally { greater: 1, less: 0 });
    assert_eq!(tallies[1], Tally { greater: 0, less: 1 });
    assert_eq!(tallies[2], Tally { greater: 0, less: 0 });
}

#[test]
fn simulate_conserves_counts() {
    let baseline = vec![1, 2, 2, 3, 7, 9];
    let target = vec![2, 3, 5];
    let mut rng = StdRng::seed_from_u64(5);
    let es = standard_estimators();
    let res = simulate(250, &baseline, &target, &es, &mut rng).unwrap();
    assert_eq!(res.len(), es.len());
    for (r, e) in res.iter().zip(es.iter()) {
        assert_eq!(r.name, e.name);
        assert_eq!(r.iteration_count, 250);
        assert!(r.count_target_greater + r.count_target_less <= 250);
    }
}

#[test]
fn simulate_rejects_empty_samples() {
    let es = standard_estimators();
    let mut rng = StdRng::seed_from_u64(1);
    assert!(matches!(simulate(10, &vec![], &vec![1], &es, &mut rng), Err(Error::InvalidArgument)));
    assert!(matches!(simulate(10, &vec![1], &vec![], &es, &mut rng), Err(Error::InvalidArgument)));
}

#[test]
fn simulate_with_zero_iterations() {
    let mut rng = StdRng::seed_from_u64(1);
    let res = simulate(0, &vec![1, 2], &vec![3], &standard_estimators(), &mut rng).unwrap();
    assert!(res.iter().all(|r| r.iteration_count == 0 && r.count_target_greater == 0 && r.count_target_less == 0));
}

#[test]
fn shifted_target_beats_baseline_resamples() {
    let baseline: Vec<i64> = (1..=10).collect();
    let target: Vec<i64> = (10..=19).collect();
    let mut rng = StdRng::seed_from_u64(2024);
    let res = simulate(1000, &baseline, &target, &standard_estimators(), &mut rng).unwrap();
    let avg = &res[0];
    assert_eq!(avg.name, "avg");
    assert_eq!(avg.baseline_statistic, value(55, 10));
    assert_eq!(avg.target_statistic, value(145, 10));
    let ratio = avg.count_target_greater as f64 / avg.iteration_count as f64;
    assert!(ratio > 0.95);
}

#[test]
fn sort_sample_orders_raw_values() {
    let mut xs = vec![5, -2, 9, 5, 0];
    numcmp::sort_sample(&mut xs);
    assert_eq!(xs, vec![-2, 0, 5, 5, 9]);
}
