use rpmi::listing::{parse_listing_line, tokenize};

#[test]
fn parse_line_with_epoch() {
    let e = parse_listing_line("foo.x86_64 2:1.2.3-4 repo").unwrap();
    assert_eq!(e.name, "foo");
    assert_eq!(e.arch, "x86_64");
    assert_eq!(e.version, "1.2.3");
    assert_eq!(e.release, "4");
}

#[test]
fn parse_line_without_epoch() {
    let e = parse_listing_line("foo.x86_64 1.2.3-4 @System").unwrap();
    assert_eq!(e.name, "foo");
    assert_eq!(e.arch, "x86_64");
    assert_eq!(e.version, "1.2.3");
    assert_eq!(e.release, "4");
}

#[test]
fn parse_splits_version_at_first_dash() {
    let e = parse_listing_line("bar.noarch 1.0-2-beta repo").unwrap();
    assert_eq!(e.version, "1.0");
    assert_eq!(e.release, "2-beta");
}

#[test]
fn parse_splits_name_at_first_dot() {
    let e = parse_listing_line("python3.11.x86_64 3.11.9-1 updates").unwrap();
    assert_eq!(e.name, "python3");
    assert_eq!(e.arch, "11.x86_64");
}

#[test]
fn parse_accepts_tab_separators() {
    let e = parse_listing_line("foo.x86_64\t1.2-3\trepo").unwrap();
    assert_eq!(e.name, "foo");
    assert_eq!(e.version, "1.2");
    assert_eq!(e.release, "3");
}

#[test]
fn parse_rejects_two_columns() {
    assert!(parse_listing_line("foo.x86_64 1.2.3-4").is_none());
}

#[test]
fn parse_rejects_four_columns() {
    assert!(parse_listing_line("foo.x86_64 1.2.3-4 repo extra").is_none());
}

#[test]
fn parse_rejects_empty_and_blank_lines() {
    assert!(parse_listing_line("").is_none());
    assert!(parse_listing_line("   \t  ").is_none());
}

#[test]
fn parse_rejects_missing_dot() {
    assert!(parse_listing_line("foo 1.2.3-4 repo").is_none());
}

#[test]
fn parse_rejects_missing_dash() {
    assert!(parse_listing_line("foo.x86_64 1.2.3 repo").is_none());
}

#[test]
fn tokenize_splits_on_whitespace_runs() {
    let toks = tokenize("  a\t\tbb  c ");
    assert_eq!(toks, vec!["a".to_string(), "bb".to_string(), "c".to_string()]);
}

#[test]
fn tokenize_empty_line() {
    assert_eq!(tokenize(""), Vec::<String>::new());
}
