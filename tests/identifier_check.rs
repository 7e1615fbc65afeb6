use lemmeknow::{Catalog, Data};

fn record(name: &str, regex: &str, rarity: u16, tags: &[&str]) -> Data {
    Data {
        name: name.to_string(),
        regex: regex.to_string(),
        plural_name: false,
        description: None,
        rarity,
        url: None,
        tags: tags.iter().map(|t| t.to_string()).collect(),
    }
}

fn catalog() -> Catalog {
    Catalog::new(vec![
        record("TryHackMe Flag Format", r"^(?i)thm\{.*\}$", 1000, &["CTF Flag"]),
        record("HackTheBox Flag Format", r"^(?i)htb\{.*\}$", 1000, &["CTF Flag"]),
        record("YouTube Channel ID", r"^UC[0-9A-Za-z_-]{21}[AQgw]$", 1000, &["Media", "YouTube"]),
        record(
            "Uniform Resource Locator (URL)",
            r"^(?:https?://)?[a-z0-9.-]+\.[a-z]{2,}(?:/\S*)?$",
            800,
            &["Identifiers", "URL"],
        ),
        record("Phone Number", r"^\+?[0-9]{7,15}$", 50, &["Identifiers"]),
        record("Lowercase word", r"^[a-z]+$", 10, &["Text"]),
    ])
}

#[test]
fn identify_works() {
    let catalog = catalog();
    let identifier = lemmeknow::Identifier::default();
    let result = identifier.identify(&catalog, "UC11L3JDgDQMyH8iolKkVZ4w");
    assert_eq!(result[0].data.name, "YouTube Channel ID");
}

#[test]
fn boundaryless_and_min_rarity_works() {
    let catalog = catalog();
    let identifier = lemmeknow::Identifier::default()
        .boundaryless(true)
        .min_rarity(600);
    let result = identifier.identify(&catalog, "abcthm{kgh}jk");
    assert_eq!(result[0].data.name, "TryHackMe Flag Format");
}

#[test]
fn bytes_identify() {
    let catalog = catalog();
    let identifier = lemmeknow::bytes::Identifier::default();
    let data = [
        104, 116, 116, 112, 115, 58, 47, 47, 115, 119, 97, 110, 97, 110, 100, 120, 46, 103, 105,
        116, 104, 117, 98, 46, 105, 111,
    ];
    let result = identifier.identify(&catalog, &data);
    assert_eq!(result[0].data.name, "Uniform Resource Locator (URL)")
}

#[test]
fn bytes_identify_boundaryless() {
    let catalog = catalog();
    let identifier = lemmeknow::bytes::Identifier::default()
        .boundaryless(true)
        .min_rarity(600);
    let data = [
        115, 119, 97, 110, 104, 116, 98, 123, 97, 110, 100, 125, 100, 120,
    ];
    let result = identifier.identify(&catalog, &data);
    assert_eq!(result[0].data.name, "HackTheBox Flag Format")
}

#[test]
fn first_match_finds_nothing_meaningful() {
    let catalog = catalog();
    let identifier = lemmeknow::Identifier::default();
    assert!(identifier
        .first_match(&catalog, "a string matching nothing meaningful")
        .is_none());
}

#[test]
fn first_match_takes_catalog_order() {
    let catalog = catalog();
    let identifier = lemmeknow::Identifier::default();
    let m = identifier.first_match(&catalog, "8888888888").unwrap();
    assert_eq!(m.data.name, "Phone Number");
    assert_eq!(m.text, "8888888888");
    let all = identifier.identify(&catalog, "swanandx.github.io");
    let first = identifier.first_match(&catalog, "swanandx.github.io").unwrap();
    assert_eq!(first.data.name, all[0].data.name);
}

#[test]
fn identify_keeps_every_match_in_catalog_order() {
    let catalog = catalog();
    let identifier = lemmeknow::Identifier::default();
    let result = identifier.identify(&catalog, "hello");
    let names: Vec<&str> = result.iter().map(|m| m.data.name.as_str()).collect();
    assert_eq!(names, vec!["Lowercase word"]);
    assert!(result.iter().all(|m| m.text == "hello"));
}

#[test]
fn empty_input_yields_no_matches() {
    let catalog = catalog();
    let identifier = lemmeknow::Identifier::default();
    assert!(identifier.identify(&catalog, "").is_empty());
    assert!(identifier.first_match(&catalog, "").is_none());
}

#[test]
fn anchored_mode_needs_whole_input() {
    let catalog = catalog();
    let identifier = lemmeknow::Identifier::default();
    assert!(identifier.identify(&catalog, "abcthm{kgh}jk").is_empty());
    let loose = lemmeknow::Identifier::default().boundaryless(true);
    let names: Vec<String> = loose
        .identify(&catalog, "abcthm{kgh}jk")
        .into_iter()
        .map(|m| m.data.name)
        .collect();
    assert_eq!(names, vec!["TryHackMe Flag Format", "Lowercase word"]);
}

#[test]
fn rarity_bounds_filter_patterns() {
    let catalog = catalog();
    let low = lemmeknow::Identifier::default().max_rarity(50);
    let names: Vec<String> = low
        .identify(&catalog, "8888888888")
        .into_iter()
        .map(|m| m.data.name)
        .collect();
    assert_eq!(names, vec!["Phone Number"]);
    let high = lemmeknow::Identifier::default().min_rarity(51);
    assert!(high.identify(&catalog, "8888888888").is_empty());
}

#[test]
fn include_tags_require_every_tag() {
    let catalog = catalog();
    let both = lemmeknow::Identifier::default()
        .include_tags(&["Media".to_string(), "YouTube".to_string()]);
    assert_eq!(both.identify(&catalog, "UC11L3JDgDQMyH8iolKkVZ4w").len(), 1);
    let one_missing = lemmeknow::Identifier::default()
        .include_tags(&["Media".to_string(), "CTF Flag".to_string()]);
    assert!(one_missing.identify(&catalog, "UC11L3JDgDQMyH8iolKkVZ4w").is_empty());
}

#[test]
fn exclude_tags_reject_any_overlap() {
    let catalog = catalog();
    let id = lemmeknow::Identifier::default().exclude_tags(&["Nothing".to_string(), "YouTube".to_string()]);
    assert!(id.identify(&catalog, "UC11L3JDgDQMyH8iolKkVZ4w").is_empty());
    let other = lemmeknow::Identifier::default().exclude_tags(&["Nothing".to_string()]);
    assert_eq!(other.identify(&catalog, "UC11L3JDgDQMyH8iolKkVZ4w").len(), 1);
}

#[test]
fn candidates_match_like_each_one_alone() {
    let catalog = catalog();
    let id = lemmeknow::Identifier::default();
    let cands = vec![
        "8888888888".to_string(),
        "UC11L3JDgDQMyH8iolKkVZ4w".to_string(),
        "hello".to_string(),
    ];
    let all = id.identify_candidates(&catalog, &cands);
    let mut one_by_one = Vec::new();
    for c in &cands {
        one_by_one.extend(id.identify(&catalog, c));
    }
    let a: Vec<(String, String)> = all.iter().map(|m| (m.text.clone(), m.data.name.clone())).collect();
    let b: Vec<(String, String)> = one_by_one.iter().map(|m| (m.text.clone(), m.data.name.clone())).collect();
    assert_eq!(a, b);
    assert_eq!(a.len(), 3);
    let mut reversed = cands.clone();
    reversed.reverse();
    let mut c: Vec<(String, String)> = id
        .identify_candidates(&catalog, &reversed)
        .iter()
        .map(|m| (m.text.clone(), m.data.name.clone()))
        .collect();
    let mut a_sorted = a.clone();
    a_sorted.sort();
    c.sort();
    assert_eq!(a_sorted, c);
}

#[test]
fn bytes_first_match_and_none() {
    let catalog = catalog();
    let id = lemmeknow::bytes::Identifier::default();
    assert_eq!(id.first_match(&catalog, b"8888888888").unwrap().data.name, "Phone Number");
    assert!(id.first_match(&catalog, b"a friend for swanandx").is_none());
    let m = id.identify(&catalog, b"\xff\xfe");
    assert!(m.is_empty());
}

#[test]
fn file_contents_are_scanned_only_with_file_support() {
    let catalog = catalog();
    let with_files = lemmeknow::Identifier::default().file_support(true);
    let contents: &[u8] = b"8888888888\x00UC11L3JDgDQMyH8iolKkVZ4w\x00ab";
    let cands = with_files.candidates_of("dump.bin", Some(contents));
    assert_eq!(cands, vec!["8888888888".to_string(), "UC11L3JDgDQMyH8iolKkVZ4w".to_string()]);
    let r = with_files.identify_input(&catalog, "dump.bin", Some(contents));
    let names: Vec<String> = r.iter().map(|m| m.data.name.clone()).collect();
    assert_eq!(names, vec!["Phone Number", "YouTube Channel ID"]);
    let without = lemmeknow::Identifier::default();
    assert_eq!(without.candidates_of("dump.bin", Some(contents)), vec!["dump.bin".to_string()]);
    let as_text: Vec<String> = without
        .identify_input(&catalog, "dump.bin", Some(contents))
        .into_iter()
        .map(|m| m.data.name)
        .collect();
    assert_eq!(as_text, vec!["Uniform Resource Locator (URL)"]);
    let text_only = with_files.identify_input(&catalog, "8888888888", None);
    assert_eq!(text_only.len(), 1);
}
