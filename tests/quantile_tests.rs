use numcmp::{is_sorted, mean, quantile, Error, Estimate, Fraction};

fn frac(num: i64, den: u64) -> Fraction {
    Fraction { num, den }
}

fn value(num: i128, den: u128) -> Estimate {
    Estimate { num, den }
}

#[test]
fn interpolates_halfway_between_two_values() {
    assert_eq!(quantile(&vec![1, 2], frac(1, 2)), Ok(value(3, 2)));
}

#[test]
fn whole_index_returns_the_element() {
    assert_eq!(quantile(&vec![1, 2, 3], frac(1, 2)), Ok(value(2, 1)));
}

#[test]
fn ends_are_exact() {
    let s = vec![-7, 3, 3, 10, 42];
    assert_eq!(quantile(&s, frac(0, 1)), Ok(value(-7, 1)));
    assert_eq!(quantile(&s, frac(0, 13)), Ok(value(-7, 1)));
    assert_eq!(quantile(&s, frac(1, 1)), Ok(value(42, 1)));
    assert_eq!(quantile(&s, frac(7, 7)), Ok(value(42, 1)));
}

#[test]
fn singleton_gives_its_value_at_every_level() {
    let s = vec![17];
    for (n, d) in [(0, 1), (1, 3), (1, 2), (99, 100), (1, 1)] {
        assert_eq!(quantile(&s, frac(n, d)), Ok(value(17, 1)));
    }
}

#[test]
fn out_of_range_levels_are_rejected() {
    let s = vec![1, 2, 3];
    assert_eq!(quantile(&s, frac(-1, 10)), Err(Error::InvalidArgument));
    assert_eq!(quantile(&s, frac(11, 10)), Err(Error::InvalidArgument));
    assert_eq!(quantile(&s, frac(1, 0)), Err(Error::InvalidArgument));
}

#[test]
fn empty_sample_is_rejected() {
    assert_eq!(quantile(&vec![], frac(1, 2)), Err(Error::InvalidArgument));
    assert_eq!(mean(&vec![]), Err(Error::InvalidArgument));
}

#[test]
fn interpolation_weights_follow_the_fraction() {
    // index (5 - 1) * 0.9 = 3.6: 10 * 0.4 + 20 * 0.6 = 16
    let s = vec![1, 2, 5, 10, 20];
    let e = quantile(&s, frac(9, 10)).unwrap();
    assert_eq!(e, value(160, 10));
    // index (4 - 1) * 0.75 = 2.25: 30 * 0.75 + 40 * 0.25 = 32.5
    let s = vec![10, 20, 30, 40];
    assert_eq!(quantile(&s, frac(3, 4)), Ok(value(130, 4)));
}

#[test]
fn quantile_grows_with_the_level() {
    let s = vec![-3, 0, 0, 4, 9, 9, 15];
    let levels = [(0, 1), (1, 10), (1, 4), (1, 3), (1, 2), (2, 3), (3, 4), (9, 10), (99, 100), (1, 1)];
    let mut prev: Option<Estimate> = None;
    for (n, d) in levels {
        let e = quantile(&s, frac(n, d)).unwrap();
        if let Some(p) = prev {
            assert!(p.num * (e.den as i128) <= e.num * (p.den as i128));
        }
        prev = Some(e);
    }
}

#[test]
fn extreme_values_do_not_overflow() {
    let s = vec![i64::MIN, i64::MAX];
    let e = quantile(&s, frac(1, 2)).unwrap();
    assert_eq!(e, value(-1, 2));
    let s = vec![i64::MAX, i64::MAX];
    let e = quantile(&s, frac(1, u64::MAX)).unwrap();
    assert_eq!(e.num, (i64::MAX as i128) * (u64::MAX as i128));
    assert_eq!(e.den, u64::MAX as u128);
}

#[test]
fn mean_is_sum_over_count() {
    assert_eq!(mean(&vec![1, 2, 3, 4, 5, 6, 7, 8, 9, 10]), Ok(value(55, 10)));
    assert_eq!(mean(&vec![-4]), Ok(value(-4, 1)));
    assert_eq!(mean(&vec![i64::MAX, i64::MAX]), Ok(value(2 * (i64::MAX as i128), 2)));
}

#[test]
fn sortedness_check() {
    assert!(is_sorted(&vec![]));
    assert!(is_sorted(&vec![5]));
    assert!(is_sorted(&vec![1, 1, 2, 9]));
    assert!(!is_sorted(&vec![1, 3, 2]));
    assert!(!is_sorted(&vec![2, 1]));
}
