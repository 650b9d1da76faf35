use hostfetch::probe::{cleanup_string, normalize_candidate, resolve_candidates, FactProbe};

#[test]
fn cleanup_trims_and_strips() {
    assert_eq!(cleanup_string("  abc  "), "abc");
    assert_eq!(cleanup_string("a\\nb"), "ab");
    assert_eq!(cleanup_string("a\0b"), "ab");
    assert_eq!(cleanup_string("  a\\nb\0c  "), "abc");
    assert_eq!(cleanup_string("\\n  x  "), "x");
    assert_eq!(cleanup_string(""), "");
}

#[test]
fn sentinels_normalize_to_empty() {
    assert_eq!(normalize_candidate("Not Specified"), "");
    assert_eq!(normalize_candidate("Default string"), "");
    assert_eq!(normalize_candidate("To be filled by O.E.M."), "");
    assert_eq!(normalize_candidate("System Product Name"), "");
    assert_eq!(normalize_candidate("  Not Specified  "), "");
    assert_eq!(normalize_candidate(""), "");
    assert_eq!(normalize_candidate("\0\0"), "");
}

#[test]
fn ordinary_values_survive_normalization() {
    assert_eq!(normalize_candidate(" ThinkPad X1 "), "ThinkPad X1");
    assert_eq!(normalize_candidate("not specified"), "not specified");
}

#[test]
fn resolution_takes_first_valid_candidate() {
    let cands: Vec<Option<String>> = vec![
        None,
        Some("   ".to_string()),
        Some("To be filled by O.E.M.".to_string()),
        Some(" good ".to_string()),
        Some("later".to_string()),
    ];
    assert_eq!(resolve_candidates(&cands, "dflt"), "good");
}

#[test]
fn resolution_falls_back_to_default() {
    let cands: Vec<Option<String>> = vec![None, Some("".to_string()), Some("\0".to_string())];
    assert_eq!(resolve_candidates(&cands, "Unknown Device"), "Unknown Device");
    let empty: Vec<Option<String>> = Vec::new();
    assert_eq!(resolve_candidates(&empty, "dflt"), "dflt");
}

#[test]
fn probe_short_circuits_after_first_valid() {
    let cands: Vec<Option<String>> = vec![
        None,
        Some("Not Specified".to_string()),
        Some("good".to_string()),
        Some("never asked".to_string()),
        Some("never asked either".to_string()),
    ];
    let mut probe = FactProbe::new(cands.len());
    let mut invoked = 0;
    while let Some(i) = probe.next_detector() {
        invoked += 1;
        probe.feed(cands[i].as_deref());
    }
    assert_eq!(invoked, 3);
    assert_eq!(probe.into_result("dflt"), "good");
}

#[test]
fn probe_exhausts_without_valid_candidate() {
    let mut probe = FactProbe::new(2);
    let mut invoked = 0;
    while let Some(_i) = probe.next_detector() {
        invoked += 1;
        probe.feed(None);
    }
    assert_eq!(invoked, 2);
    assert_eq!(probe.into_result("fallback"), "fallback");
}
