use disk_bench::measurement::Measurement;

#[test]
fn per_sec_divides_by_seconds() {
    let m = Measurement { value: 3_000, elapsed_nanos: 1_500_000_000 };
    assert_eq!(m.per_sec(), 2_000);
    let instant = Measurement { value: 1, elapsed_nanos: 0 };
    assert_eq!(instant.per_sec(), 1_000_000_000);
}

#[test]
fn sum_adds_values_and_times() {
    let ms = vec![
        Measurement { value: 10, elapsed_nanos: 100 },
        Measurement { value: 20, elapsed_nanos: 250 },
        Measurement { value: 5, elapsed_nanos: 0 },
    ];
    assert_eq!(Measurement::sum(&ms), Measurement { value: 35, elapsed_nanos: 350 });
    assert_eq!(Measurement::sum(&Vec::new()), Measurement { value: 0, elapsed_nanos: 0 });
}
