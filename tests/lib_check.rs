use lemmeknow::extract::TailPolicy;
use lemmeknow::identifier::Match;
use lemmeknow::{analyze_file, extract_strings, identify_text, strip_anchors, what_is};
use lemmeknow::{Catalog, Data, Filters};

fn record(name: &str, regex: &str, rarity: u16, tags: &[&str]) -> Data {
    Data {
        name: name.to_string(),
        regex: regex.to_string(),
        plural_name: false,
        description: None,
        rarity,
        url: None,
        tags: tags.iter().map(|t| t.to_string()).collect(),
    }
}

#[test]
fn it_works() {
    assert_eq!(2 + 2, 4);
}

#[test]
fn strip_removes_top_level_anchors() {
    assert_eq!(strip_anchors("^abc$"), "abc");
    assert_eq!(strip_anchors("^(?:a|b)+$"), "(?:a|b)+");
    assert_eq!(strip_anchors("a^b$c"), "abc");
    assert_eq!(strip_anchors(""), "");
}

#[test]
fn strip_keeps_escaped_anchors() {
    assert_eq!(strip_anchors(r"^\^x\$$"), r"\^x\$");
    assert_eq!(strip_anchors(r"\\^a"), r"\\a");
    assert_eq!(strip_anchors(r"\\\^a"), r"\\\^a");
}

#[test]
fn strip_keeps_anchors_in_classes() {
    assert_eq!(strip_anchors("^[^a-z$]+$"), "[^a-z$]+");
    assert_eq!(strip_anchors(r"^[\]^$]x$"), r"[\]^$]x");
    assert_eq!(strip_anchors("^[[:alpha:]^]$"), "[[:alpha:]^]");
}

#[test]
fn strip_keeps_anchors_after_leading_bracket() {
    assert_eq!(strip_anchors("^[]^$]x$"), "[]^$]x");
    assert_eq!(strip_anchors("^[^]^]$"), "[^]^]");
    assert_eq!(strip_anchors("^[^^]$"), "[^^]");
    assert_eq!(strip_anchors("^[a]^$"), "[a]");
    assert_eq!(strip_anchors("^[[]^]$]$"), "[[]^]$]");
}

#[test]
fn catalog_drops_only_uncompilable_patterns() {
    let catalog = Catalog::new(vec![
        record("good", "^ab$", 500, &[]),
        record("broken", "^(ab$", 500, &[]),
        record("only anchored", "^*a", 500, &[]),
    ]);
    assert_eq!(catalog.len(), 2);
    assert_eq!(catalog.entry(0).data.name, "good");
    assert!(catalog.entry(0).boundaryless.is_some());
    assert_eq!(catalog.entry(1).data.name, "only anchored");
    assert!(catalog.entry(1).boundaryless.is_none());
    let id = lemmeknow::Identifier::default();
    assert_eq!(id.identify(&catalog, "a").len(), 1);
    assert!(id.boundaryless(true).identify(&catalog, "a").is_empty());
}

#[test]
fn extraction_keeps_long_runs() {
    let blob = b"abcdefghij\x00xy";
    let uniform = extract_strings(blob, TailPolicy::Uniform);
    assert_eq!(uniform, vec!["abcdefghij".to_string()]);
    let keep = extract_strings(blob, TailPolicy::KeepTail);
    assert_eq!(keep, vec!["abcdefghij".to_string(), "xy".to_string()]);
}

#[test]
fn extraction_edges() {
    assert!(extract_strings(b"", TailPolicy::Uniform).is_empty());
    assert_eq!(extract_strings(b"", TailPolicy::KeepTail), vec![String::new()]);
    assert_eq!(extract_strings(b"abc \tabcd\n", TailPolicy::Uniform), vec!["abcd".to_string()]);
    assert_eq!(extract_strings(b"abcd\n", TailPolicy::KeepTail), vec!["abcd".to_string(), String::new()]);
    assert_eq!(extract_strings(b"\x01wxyz", TailPolicy::Uniform), vec!["wxyz".to_string()]);
    let again = extract_strings(b"\x01wxyz", TailPolicy::Uniform);
    assert_eq!(again, extract_strings(b"\x01wxyz", TailPolicy::Uniform));
}

fn small_catalog() -> Catalog {
    Catalog::new(vec![
        record("Internet Protocol (IP) Address Version 4", r"^(?:[0-9]{1,3}\.){3}[0-9]{1,3}$", 700, &["Networking"]),
        record("Date", r"^[0-9]{2}-[0-9]{2}-[0-9]{4}$", 200, &["Date"]),
        record("Lowercase word", r"^[a-z]+$", 10, &["Text"]),
    ])
}

#[test]
fn identify_text_tries_every_pattern() {
    let catalog = small_catalog();
    let r = identify_text(&catalog, "127.0.0.1");
    assert_eq!(r.len(), 1);
    assert_eq!(r[0].data.name, "Internet Protocol (IP) Address Version 4");
    assert!(identify_text(&catalog, "afsjdla!").is_empty());
}

#[test]
fn analyze_file_scans_printable_runs() {
    let catalog = small_catalog();
    let contents = b"127.0.0.1\n13-08-1987\nidk what this is lol";
    let r = analyze_file(&catalog, contents);
    let names: Vec<(String, String)> = r.iter().map(|m| (m.text.clone(), m.data.name.clone())).collect();
    assert_eq!(
        names,
        vec![
            ("127.0.0.1".to_string(), "Internet Protocol (IP) Address Version 4".to_string()),
            ("13-08-1987".to_string(), "Date".to_string()),
            ("what".to_string(), "Lowercase word".to_string()),
            ("this".to_string(), "Lowercase word".to_string()),
        ]
    );
}

#[test]
fn what_is_dispatches_on_file() {
    let catalog = small_catalog();
    let as_text = what_is(&catalog, "127.0.0.1", None);
    assert_eq!(as_text.len(), 1);
    let as_file = what_is(&catalog, "notes.txt", Some(b"xx 13-08-1987 yy"));
    assert_eq!(as_file.len(), 1);
    assert_eq!(as_file[0].text, "13-08-1987");
}

#[test]
fn filters_keep_eligible_matches_and_are_idempotent() {
    let catalog = small_catalog();
    let mut ms: Vec<Match> = identify_text(&catalog, "127.0.0.1");
    ms.extend(identify_text(&catalog, "abc"));
    assert_eq!(ms.len(), 2);
    let f = Filters { min_rarity: Some(100), ..Filters::default() };
    f.filter(&mut ms);
    assert_eq!(ms.len(), 1);
    assert_eq!(ms[0].data.name, "Internet Protocol (IP) Address Version 4");
    f.filter(&mut ms);
    assert_eq!(ms.len(), 1);
    let g = Filters { exclude_tags: vec!["Networking".to_string()], ..Filters::default() };
    g.filter(&mut ms);
    assert!(ms.is_empty());
}

#[test]
fn filters_tags_and_upper_bound() {
    let catalog = small_catalog();
    let mut ms: Vec<Match> = identify_text(&catalog, "127.0.0.1");
    ms.extend(identify_text(&catalog, "13-08-1987"));
    ms.extend(identify_text(&catalog, "abc"));
    let mut a: Vec<Match> = ms.clone();
    Filters { max_rarity: Some(200), ..Filters::default() }.filter(&mut a);
    assert_eq!(a.len(), 2);
    let mut b: Vec<Match> = ms.clone();
    Filters { tags: vec!["Date".to_string()], ..Filters::default() }.filter(&mut b);
    assert_eq!(b.len(), 1);
    assert_eq!(b[0].data.name, "Date");
}

#[test]
fn select_matches_keeps_flagged_patterns_in_order() {
    let catalog = small_catalog();
    let r = lemmeknow::identifier::select_matches(&catalog, "zz", &vec![true, false, true]);
    let names: Vec<String> = r.iter().map(|m| m.data.name.clone()).collect();
    assert_eq!(names, vec!["Internet Protocol (IP) Address Version 4", "Lowercase word"]);
    assert!(r.iter().all(|m| m.text == "zz"));
    assert!(lemmeknow::identifier::select_matches(&catalog, "zz", &vec![false, false, false]).is_empty());
}

#[test]
fn bytes_select_matches_keeps_flagged_patterns() {
    let catalog = small_catalog();
    let r = lemmeknow::bytes::select_matches(&catalog, b"\x00\x01", &vec![false, true, false]);
    assert_eq!(r.len(), 1);
    assert_eq!(r[0].data.name, "Date");
    assert_eq!(r[0].text, vec![0u8, 1u8]);
}

#[test]
fn stripping_twice_changes_nothing() {
    for p in ["^a$", r"^\^[$]$$", "^[[:alpha:]]+$^", r"\\\\^x", "plain"] {
        let once = strip_anchors(p);
        assert_eq!(strip_anchors(&once), once);
    }
}

#[test]
fn catalog_keeps_priority_order() {
    let catalog = small_catalog();
    assert_eq!(catalog.len(), 3);
    assert_eq!(catalog.entry(0).data.name, "Internet Protocol (IP) Address Version 4");
    assert_eq!(catalog.entry(2).data.name, "Lowercase word");
    assert!(catalog.entry(2).anchored_bytes.is_some());
}
