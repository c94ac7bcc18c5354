use lirik::cli::{has, offset_arg};

fn args(list: &[&str]) -> Vec<String> {
    list.iter().map(|s| s.to_string()).collect()
}

#[test]
fn long_flags_are_found() {
    let a = args(&["lirik", "--plain"]);
    assert!(has(&a, 'p', "--plain"));
    assert!(!has(&a, 'r', "--reverse"));
}

#[test]
fn short_flags_combine() {
    let a = args(&["lirik", "-pcr"]);
    assert!(has(&a, 'p', "--plain"));
    assert!(has(&a, 'c', "--current"));
    assert!(has(&a, 'r', "--reverse"));
    assert!(!has(&a, 'j', "--json"));
}

#[test]
fn double_dash_is_not_a_short_cluster() {
    let a = args(&["lirik", "--reverse"]);
    assert!(!has(&a, 'e', "--everything"));
}

#[test]
fn offset_option_reads_its_value() {
    assert_eq!(offset_arg(&args(&["lirik", "--offset", "250"])), Some(250));
    assert_eq!(offset_arg(&args(&["lirik", "-o", "-150"])), Some(-150));
    assert_eq!(offset_arg(&args(&["lirik", "-o", "+150"])), Some(150));
}

#[test]
fn offset_missing_or_malformed_reads_nothing() {
    assert_eq!(offset_arg(&args(&["lirik"])), None);
    assert_eq!(offset_arg(&args(&["lirik", "--offset"])), None);
    assert_eq!(offset_arg(&args(&["lirik", "--offset", "soon"])), None);
}
