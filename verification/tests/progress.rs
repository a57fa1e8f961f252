use oxidlp::progress::parse_progress;

#[test]
fn parses_full_progress_line() {
    let p = parse_progress("[download]  42.0% of 10.00MiB at 1.20MiB/s ETA 00:07").unwrap();
    assert_eq!(p.percent_milli, 42000);
    assert_eq!(p.speed, "1.20MiB/s");
    assert_eq!(p.eta, "00:07");
}

#[test]
fn ignores_line_without_percent() {
    assert!(parse_progress("[info] Extracting URL").is_none());
}

#[test]
fn ignores_line_without_marker() {
    assert!(parse_progress("something 42.0% of stuff").is_none());
}

#[test]
fn whole_percent_parses() {
    let p = parse_progress("[download] 100% of 3.00MiB in 00:01").unwrap();
    assert_eq!(p.percent_milli, 100000);
    assert_eq!(p.speed, "--");
    assert_eq!(p.eta, "--");
}

#[test]
fn sub_percent_fraction_parses() {
    let p = parse_progress("[download]  0.3% of ~4.33MiB at  500.00KiB/s ETA 01:00").unwrap();
    assert_eq!(p.percent_milli, 300);
    assert_eq!(p.speed, "500.00KiB/s");
    assert_eq!(p.eta, "01:00");
}

#[test]
fn garbled_percent_is_not_progress() {
    assert!(parse_progress("[download] abc% of 10MiB").is_none());
}

#[test]
fn percent_token_with_empty_number_is_not_progress() {
    assert!(parse_progress("[download] % of 10MiB").is_none());
}

#[test]
fn eta_marker_without_token_defaults() {
    let p = parse_progress("[download] 10.5% at 1.00MiB/s ETA").unwrap();
    assert_eq!(p.percent_milli, 10500);
    assert_eq!(p.eta, "--");
}

#[test]
fn fraction_digits_beyond_three_truncate() {
    let p = parse_progress("[download] 12.3456% done").unwrap();
    assert_eq!(p.percent_milli, 12345);
}

#[test]
fn trailing_point_parses_as_whole() {
    let p = parse_progress("[download] 7.% done").unwrap();
    assert_eq!(p.percent_milli, 7000);
}
