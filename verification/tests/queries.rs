use bbrew::query::{
    chars_of, installed_from_text, mark_spaces, names_in, parse_installed, trim_by, trim_text,
    OutdatedPackages, Package,
};

fn strings(names: &[&str]) -> Vec<String> {
    names.iter().map(|s| s.to_string()).collect()
}

fn packages(value: &serde_json::Value) -> Vec<Package> {
    value
        .as_array()
        .unwrap()
        .iter()
        .map(|entry| Package { name: entry["name"].as_str().unwrap().to_string() })
        .collect()
}

fn outdated(json: &str) -> OutdatedPackages {
    let value: serde_json::Value = serde_json::from_str(json).unwrap();
    OutdatedPackages { formulae: packages(&value["formulae"]), casks: packages(&value["casks"]) }
}

#[test]
fn test_package_parsing() {
    let json = r#"{
            "formulae": [
                {"name": "wget"},
                {"name": "curl"}
            ],
            "casks": [
                {"name": "firefox"}
            ]
        }"#;

    let outdated = outdated(json);
    assert_eq!(outdated.formulae.len(), 2);
    assert_eq!(outdated.casks.len(), 1);
    assert_eq!(outdated.formulae[0].name, "wget");
    assert_eq!(outdated.names(), strings(&["wget", "curl", "firefox"]));
}

#[test]
fn formulae_come_before_casks() {
    let outdated = outdated(r#"{"formulae":[{"name":"wget"}],"casks":[{"name":"firefox"}]}"#);
    assert_eq!(outdated.names(), strings(&["wget", "firefox"]));
}

#[test]
fn nothing_outdated_gives_no_names() {
    let outdated = OutdatedPackages { formulae: vec![], casks: vec![] };
    assert!(outdated.names().is_empty());
}

#[test]
fn only_casks_outdated() {
    let outdated = OutdatedPackages {
        formulae: vec![],
        casks: vec![Package { name: "a".to_string() }, Package { name: "b".to_string() }],
    };
    assert_eq!(outdated.names(), strings(&["a", "b"]));
}

#[test]
fn one_name_to_a_line() {
    assert_eq!(installed_from_text("wget\ncurl\nopenssl@3\n"), strings(&["wget", "curl", "openssl@3"]));
}

#[test]
fn last_line_needs_no_line_feed() {
    assert_eq!(installed_from_text("wget\ncurl"), strings(&["wget", "curl"]));
}

#[test]
fn blank_lines_are_left_out() {
    assert_eq!(installed_from_text("\n\nwget\n   \n\t\ncurl\n\n"), strings(&["wget", "curl"]));
    assert!(installed_from_text("").is_empty());
    assert!(installed_from_text("\n").is_empty());
    assert!(installed_from_text("  \t ").is_empty());
}

#[test]
fn names_are_trimmed_at_both_ends_only() {
    assert_eq!(installed_from_text("  wget  \n\tcurl\t\n"), strings(&["wget", "curl"]));
    assert_eq!(installed_from_text(" two words \n"), strings(&["two words"]));
}

#[test]
fn carriage_returns_before_line_feeds_are_dropped() {
    assert_eq!(installed_from_text("wget\r\ncurl\r\n"), strings(&["wget", "curl"]));
    assert_eq!(installed_from_text("a\rb\n"), strings(&["a\rb"]));
}

#[test]
fn white_space_beyond_ascii_is_trimmed() {
    assert_eq!(installed_from_text("\u{a0}wget\u{3000}\n\u{2003}\n"), strings(&["wget"]));
    assert_eq!(installed_from_text("w\u{a0}get\n"), strings(&["w\u{a0}get"]));
}

#[test]
fn names_beyond_ascii_are_kept() {
    assert_eq!(installed_from_text(" caf\u{e9} \n\u{8d8a}\n"), strings(&["caf\u{e9}", "\u{8d8a}"]));
}

#[test]
fn installed_list_from_bytes() {
    assert_eq!(parse_installed(b"wget\n curl \n\n"), strings(&["wget", "curl"]));
    assert!(parse_installed(b"").is_empty());
}

#[test]
fn ill_formed_bytes_are_replaced() {
    assert_eq!(parse_installed(b"wg\xffet\ncurl\n"), strings(&["wg\u{fffd}et", "curl"]));
    assert_eq!(parse_installed(b"caf\xc3\xa9\n"), strings(&["caf\u{e9}"]));
}

#[test]
fn chars_in_order() {
    assert_eq!(chars_of("a\u{e9}\n"), vec!['a', '\u{e9}', '\n']);
    assert!(chars_of("").is_empty());
}

#[test]
fn trimming_takes_white_space_from_both_ends() {
    assert_eq!(trim_text("  a b \t\r\n"), "a b");
    assert_eq!(trim_text("a"), "a");
    assert_eq!(trim_text(""), "");
    assert_eq!(trim_text(" \n\t "), "");
    assert_eq!(trim_text("\u{2003}x\u{a0}"), "x");
    assert_eq!(trim_text("\nfirst\nsecond\n"), "first\nsecond");
}

#[test]
fn marks_follow_the_characters() {
    assert_eq!(mark_spaces(" a\tb\n"), vec![true, false, true, false, true]);
    assert_eq!(mark_spaces("\u{a0}\u{e9}"), vec![true, false]);
    assert!(mark_spaces("").is_empty());
}

#[test]
fn names_by_given_marks() {
    let marks = vec![true, false, false, false];
    assert_eq!(names_in(" a\nb", &marks), Some(strings(&["a", "b"])));
    let none = vec![false, false, false, false];
    assert_eq!(names_in(" a\nb", &none), Some(strings(&[" a", "b"])));
    let all = vec![true, true, true, true];
    assert_eq!(names_in(" a\nb", &all), Some(vec![]));
    let odd = vec![false, true, false];
    assert_eq!(names_in("axb", &odd), Some(strings(&["axb"])));
    assert_eq!(names_in("xax", &vec![true, false, true]), Some(strings(&["a"])));
}

#[test]
fn marks_must_fit_the_text() {
    assert_eq!(names_in("abc", &vec![false, false]), None);
    assert_eq!(names_in("", &vec![false]), None);
    assert_eq!(names_in("", &vec![]), Some(vec![]));
    assert_eq!(trim_by("abc", &vec![false; 4]), None);
    assert_eq!(names_in("\u{e9}", &vec![false, false]), None);
    assert_eq!(names_in("\u{e9}", &vec![false]), Some(strings(&["\u{e9}"])));
}

#[test]
fn trimming_by_given_marks() {
    assert_eq!(trim_by("xxaxbxx", &vec![true, true, false, true, false, true, true]), Some("axb".to_string()));
    assert_eq!(trim_by("abc", &vec![false, false, false]), Some("abc".to_string()));
    assert_eq!(trim_by("abc", &vec![true, true, true]), Some(String::new()));
    assert_eq!(trim_by("", &vec![]), Some(String::new()));
    assert_eq!(trim_by("a b", &vec![false, true, false]), Some("a b".to_string()));
}
