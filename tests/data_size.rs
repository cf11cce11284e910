use disk_bench::data_size::{parse_data_size, unit_for, DataSize, DataSizeError, Unit};

#[test]
fn parses_megabytes() {
    let d = parse_data_size("128MB").unwrap();
    assert_eq!(d, DataSize::new(128, Unit::MB));
    assert_eq!(d.to_bytes(), 128 * 1024 * 1024);
}

#[test]
fn parses_lower_case_kilobytes() {
    let d = parse_data_size("1kb").unwrap();
    assert_eq!(d, DataSize::new(1, Unit::KB));
    assert_eq!(d.to_bytes(), 1024);
}

#[test]
fn parses_mixed_case_units() {
    assert_eq!(parse_data_size("3Gb").unwrap(), DataSize::new(3, Unit::GB));
    assert_eq!(parse_data_size("7b").unwrap(), DataSize::new(7, Unit::B));
    assert_eq!(parse_data_size("2eB").unwrap(), DataSize::new(2, Unit::EB));
    assert_eq!(parse_data_size("0TB").unwrap(), DataSize::new(0, Unit::TB));
    assert_eq!(parse_data_size("5pb").unwrap(), DataSize::new(5, Unit::PB));
}

#[test]
fn rejects_unknown_unit() {
    assert_eq!(parse_data_size("5XB"), Err(DataSizeError::UnknownUnit));
    assert_eq!(parse_data_size("5KiB"), Err(DataSizeError::UnknownUnit));
    assert_eq!(parse_data_size("5ZB"), Err(DataSizeError::UnknownUnit));
}

#[test]
fn rejects_malformed_sizes() {
    assert_eq!(parse_data_size(""), Err(DataSizeError::Malformed));
    assert_eq!(parse_data_size("MB"), Err(DataSizeError::Malformed));
    assert_eq!(parse_data_size("128"), Err(DataSizeError::Malformed));
    assert_eq!(parse_data_size("1.5MB"), Err(DataSizeError::Malformed));
    assert_eq!(parse_data_size(" 1MB"), Err(DataSizeError::Malformed));
    assert_eq!(parse_data_size("1MB "), Err(DataSizeError::Malformed));
    assert_eq!(parse_data_size("1M2B"), Err(DataSizeError::Malformed));
}

#[test]
fn rejects_numbers_beyond_usize() {
    assert_eq!(parse_data_size("99999999999999999999999B"), Err(DataSizeError::TooLarge));
    assert_eq!(parse_data_size("18446744073709551616B"), Err(DataSizeError::TooLarge));
    assert_eq!(
        parse_data_size("18446744073709551615B").unwrap(),
        DataSize::new(usize::MAX, Unit::B)
    );
}

#[test]
fn test_bytes() {
    assert_eq!(DataSize { size: 1, unit: Unit::KB }.to_bytes(), 1024);
}

#[test]
fn test_1() {
    let make = |size: usize, unit: Unit| -> usize { DataSize { size, unit }.to_bytes() };
    assert_eq!(make(1, Unit::B), 1);
    assert_eq!(make(1, Unit::KB), 1024);
    assert_eq!(make(1, Unit::EB), 1024 * 1024 * 1024 * 1024 * 1024 * 1024);
}

#[test]
fn unit_bytes_are_powers_of_1024() {
    assert_eq!(Unit::B.bytes(), 1);
    assert_eq!(Unit::MB.bytes(), 1 << 20);
    assert_eq!(Unit::GB.bytes(), 1 << 30);
    assert_eq!(Unit::TB.bytes(), 1 << 40);
    assert_eq!(Unit::PB.bytes(), 1 << 50);
    assert_eq!(Unit::EB.bytes(), 1 << 60);
}

#[test]
fn checked_bytes_detects_overflow() {
    assert_eq!(DataSize::new(16, Unit::EB).checked_bytes(), None);
    assert_eq!(DataSize::new(15, Unit::EB).checked_bytes(), Some(15usize << 60));
    assert_eq!(DataSize::from_bytes(42).checked_bytes(), Some(42));
    assert_eq!(DataSize::new(usize::MAX, Unit::KB).checked_bytes(), None);
}

#[test]
fn unit_for_picks_largest_reached() {
    assert_eq!(unit_for(0), Unit::B);
    assert_eq!(unit_for(1), Unit::B);
    assert_eq!(unit_for(1023), Unit::B);
    assert_eq!(unit_for(1024), Unit::KB);
    assert_eq!(unit_for(128 * 1024 * 1024), Unit::MB);
    assert_eq!(unit_for(2000 * 1024 * 1024), Unit::GB);
    assert_eq!(unit_for(u64::MAX), Unit::EB);
}
