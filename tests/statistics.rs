use disk_bench::session::CycleResult;
use disk_bench::statistics::{
    floor_sqrt, max, mean, median, min, per_sec_all, rate_at_most, rates, sorted, standard_deviation,
    throughput, Rate, RunStatistics,
};

fn cycle(cycle: usize, bytes: usize, elapsed_nanos: u64) -> CycleResult {
    CycleResult { cycle, bytes, elapsed_nanos }
}

fn rate(bytes: u64, nanos: u64) -> Rate {
    Rate { bytes, nanos }
}

#[test]
fn throughput_is_bytes_per_second() {
    assert_eq!(throughput(1_048_576, 1_000_000_000), 1_048_576);
    assert_eq!(throughput(1_048_576, 500_000_000), 2_097_152);
    assert_eq!(throughput(10, 3_000_000_000), 3);
    assert_eq!(throughput(5, 0), 5_000_000_000);
    assert_eq!(throughput(u64::MAX, 1), u64::MAX);
}

#[test]
fn rates_keep_cycle_order_and_exact_times() {
    let rs = vec![cycle(0, 1000, 1_000_000_000), cycle(1, 1000, 2_000_000_000), cycle(2, 7, 0)];
    let r = rates(&rs);
    assert_eq!(r, vec![rate(1000, 1_000_000_000), rate(1000, 2_000_000_000), rate(7, 1)]);
    assert_eq!(per_sec_all(&r), vec![1000, 500, 7_000_000_000]);
}

#[test]
fn rates_compare_exactly() {
    assert!(rate_at_most(rate(1, 3), rate(2, 6)));
    assert!(rate_at_most(rate(2, 6), rate(1, 3)));
    assert!(rate_at_most(rate(1_048_576, 100_000_002), rate(1_048_576, 100_000_001)));
    assert!(!rate_at_most(rate(1_048_576, 100_000_001), rate(1_048_576, 100_000_002)));
}

#[test]
fn reductions_on_known_samples() {
    let v: Vec<u64> = vec![4, 1, 3, 2];
    assert_eq!(mean(&v), 2);
    assert_eq!(median(&v), 2);
    assert_eq!(sorted(&v), vec![1, 2, 3, 4]);
    let odd: Vec<u64> = vec![9, 1, 5];
    assert_eq!(median(&odd), 5);
    assert_eq!(mean(&odd), 5);
    let r = vec![rate(4, 1), rate(1, 1), rate(3, 1), rate(2, 1)];
    assert_eq!(min(&r), rate(1, 1));
    assert_eq!(max(&r), rate(4, 1));
}

#[test]
fn standard_deviation_of_known_samples() {
    // Deviations from the mean 5: 3, 1, 1, 1, 0, 0, 2, 4 -> 32; 32 / 7 rounded up = 5.
    let r: Vec<Rate> = [2u64, 4, 4, 4, 5, 5, 7, 9].iter().map(|x| rate(*x, 1_000_000_000)).collect();
    assert_eq!(standard_deviation(&r), 2);
    assert_eq!(standard_deviation(&[rate(77, 1)]), 0);
    assert_eq!(standard_deviation(&[rate(3, 1), rate(6, 2), rate(9, 3)]), 0);
    // Samples that round to the same whole rate still deviate.
    assert_eq!(standard_deviation(&[rate(10, 3_000_000_000), rate(11, 3_000_000_000)]), 1);
}

#[test]
fn floor_sqrt_rounds_down() {
    assert_eq!(floor_sqrt(0), 0);
    assert_eq!(floor_sqrt(15), 3);
    assert_eq!(floor_sqrt(16), 4);
    assert_eq!(floor_sqrt(u128::MAX), u64::MAX);
}

#[test]
fn run_statistics_over_throughput() {
    let rs = vec![
        cycle(0, 1_048_576, 1_000_000_000),
        cycle(1, 1_048_576, 2_000_000_000),
        cycle(2, 1_048_576, 4_000_000_000),
    ];
    let s = RunStatistics::new(&rs);
    assert_eq!(s.min, rate(1_048_576, 4_000_000_000));
    assert_eq!(s.max, rate(1_048_576, 1_000_000_000));
    assert_eq!(s.median, 524_288);
    assert_eq!(s.mean, 611_669);
    assert!(s.standard_deviation > 0);
}

#[test]
fn nearly_equal_cycle_times_still_differ() {
    let rs = vec![cycle(0, 1_048_576, 100_000_001), cycle(1, 1_048_576, 100_000_002)];
    let s = RunStatistics::new(&rs);
    assert_eq!(s.min, rate(1_048_576, 100_000_002));
    assert_eq!(s.max, rate(1_048_576, 100_000_001));
    assert!(!rate_at_most(s.max, s.min));
    assert!(s.standard_deviation > 0);
    assert_eq!(s.mean, 10_485_759);
}

#[test]
fn single_cycle_has_no_deviation() {
    let s = RunStatistics::new(&[cycle(0, 4096, 1_000)]);
    assert_eq!(s.standard_deviation, 0);
    assert_eq!(s.mean, 4_096_000_000);
    assert_eq!(s.min, s.max);
}

#[test]
fn mean_between_min_and_max_for_same_bytes() {
    let rs: Vec<CycleResult> =
        (0..7).map(|i| cycle(i, 65_536, 1_000_000 + 37_919 * i as u64 * i as u64)).collect();
    let s = RunStatistics::new(&rs);
    let lo = throughput(s.min.bytes, s.min.nanos);
    let hi = throughput(s.max.bytes, s.max.nanos);
    assert!(lo <= s.mean && s.mean <= hi);
    assert!(lo <= s.median && s.median <= hi);
}
