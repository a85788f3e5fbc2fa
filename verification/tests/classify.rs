use sortcrab::config::rules::RulesConfig;
use sortcrab::error::SortcrabError;
use sortcrab::organize::classify::{
    classify_extension, classify_file, classify_key, classify_or_fallback, normalize_extension,
    FALLBACK_CATEGORY, FALLBACK_SUBCATEGORY,
};

fn test_rules() -> RulesConfig {
    RulesConfig::default()
}

// ── classify_extension ──────────────────────────────────────────

#[test]
fn classify_known_extension() {
    let rules = test_rules();
    let rule = classify_extension(&rules, "pdf").unwrap();
    assert_eq!(rule.category, "Documents");
    assert_eq!(rule.subcategory, "PDF");
}

#[test]
fn classify_unknown_extension() {
    let rules = test_rules();
    assert!(classify_extension(&rules, "xyz123").is_none());
}

#[test]
fn classify_uppercase_extension() {
    let rules = test_rules();
    let rule = classify_extension(&rules, "PDF").unwrap();
    assert_eq!(rule.category, "Documents");
    assert_eq!(rule.subcategory, "PDF");
}

#[test]
fn classify_mixed_case_extension() {
    let rules = test_rules();
    let rule = classify_extension(&rules, "Mp3").unwrap();
    assert_eq!(rule.category, "Media");
    assert_eq!(rule.subcategory, "Audio");
}

#[test]
fn classify_empty_extension() {
    let rules = test_rules();
    assert!(classify_extension(&rules, "").is_none());
}

#[test]
fn classify_extension_with_dot_prefix() {
    let rules = test_rules();
    let rule = classify_extension(&rules, ".pdf").unwrap();
    assert_eq!(rule.category, "Documents");
    assert_eq!(rule.subcategory, "PDF");
}

#[test]
fn classify_extension_with_leading_and_trailing_whitespace() {
    let rules = test_rules();
    let rule = classify_extension(&rules, "  pdf  ").unwrap();
    assert_eq!(rule.category, "Documents");
    assert_eq!(rule.subcategory, "PDF");
}

// ── classify_file ───────────────────────────────────────────────

#[test]
fn classify_classify_file_known() {
    let rules = test_rules();
    let class = classify_file(&rules, "report.pdf").unwrap();
    assert_eq!(class.category, "Documents");
    assert_eq!(class.subcategory, "PDF");
}

#[test]
fn classify_file_dockerfile() {
    let rules = test_rules();
    let class = classify_file(&rules, "Dockerfile").unwrap();
    assert_eq!(class.category, "Development");
    assert_eq!(class.subcategory, "Docker");
}

#[test]
fn classify_file_makefile_unknown() {
    let rules = test_rules();
    match classify_file(&rules, "Makefile") {
        Err(SortcrabError::UnknownExtension(ref name)) => {
            assert_eq!(name, "Makefile");
        }
        _ => panic!("expected UnknownExtension for Makefile"),
    }
}

#[test]
fn classify_file_no_extension() {
    let rules = test_rules();
    match classify_file(&rules, "Makefile") {
        Err(SortcrabError::UnknownExtension(_)) => {}
        _ => panic!("expected UnknownExtension for file without extension"),
    }
}

#[test]
fn classify_classify_file_unknown_extension() {
    let rules = test_rules();
    match classify_file(&rules, "data.xyz123") {
        Err(SortcrabError::UnknownExtension(ref ext)) => {
            assert_eq!(ext, "xyz123");
        }
        _ => panic!("expected UnknownExtension for unknown extension"),
    }
}

#[test]
fn classify_classify_file_uppercase() {
    let rules = test_rules();
    match classify_file(&rules, "report.PDF") {
        Ok(class) => {
            assert_eq!(class.category, "Documents");
            assert_eq!(class.subcategory, "PDF");
        }
        _ => panic!("expected Ok for uppercase .PDF"),
    }
}

#[test]
fn classify_classify_file_dotfile() {
    let rules = test_rules();
    match classify_file(&rules, ".gitignore") {
        Err(SortcrabError::UnknownExtension(_)) => {}
        _ => panic!("expected UnknownExtension for dotfile"),
    }
}

// ── classify_or_fallback ───────────────────────────────────────

#[test]
fn test_classify_or_fallback_known() {
    let rules = test_rules();
    let class = classify_or_fallback(&rules, "report.pdf");
    assert_eq!(class.category, "Documents");
    assert_eq!(class.subcategory, "PDF");
}

#[test]
fn test_classify_or_fallback_unknown_ext() {
    let rules = test_rules();
    let class = classify_or_fallback(&rules, "data.xyz123");
    assert_eq!(class.category, "Other");
    assert_eq!(class.subcategory, "Unknown");
}

#[test]
fn test_classify_or_fallback_no_extension() {
    let rules = test_rules();
    let class = classify_or_fallback(&rules, "Makefile");
    assert_eq!(class.category, "Other");
    assert_eq!(class.subcategory, "Unknown");
}

// ── further cases ───────────────────────────────────────────────

#[test]
fn normalize_strips_spaces_dots_and_case() {
    assert_eq!(normalize_extension("  .PdF "), "pdf");
    assert_eq!(normalize_extension("..tar"), "tar");
    assert_eq!(normalize_extension(" . Gz "), "gz");
    assert_eq!(normalize_extension(""), "");
}

#[test]
fn normalize_law_examples_agree() {
    // Surrounding whitespace and leading dots do not change the key.
    assert_eq!(normalize_extension("mp3"), normalize_extension("  mp3\t"));
    assert_eq!(normalize_extension("mp3"), normalize_extension("...mp3"));
}

#[test]
fn classify_path_with_directories_uses_last_component() {
    let rules = test_rules();
    let class = classify_file(&rules, "/home/user/Downloads/song.FLAC").unwrap();
    assert_eq!(class.category, "Media");
    assert_eq!(class.subcategory, "Audio");
}

#[test]
fn classify_double_extension_uses_last() {
    let rules = test_rules();
    let class = classify_file(&rules, "backup.tar.gz").unwrap();
    assert_eq!(class.category, "Archives");
    assert_eq!(class.subcategory, "Archives");
}

#[test]
fn classify_file_empty_path_has_no_key() {
    let rules = test_rules();
    match classify_file(&rules, "") {
        Err(SortcrabError::UnknownExtension(ref what)) => assert_eq!(what, "<unknown>"),
        _ => panic!("expected UnknownExtension for an empty path"),
    }
}

#[test]
fn classify_key_none_and_some() {
    let rules = test_rules();
    match classify_key(&rules, None) {
        Err(SortcrabError::UnknownExtension(ref what)) => assert_eq!(what, "<unknown>"),
        _ => panic!("expected UnknownExtension without a key"),
    }
    let class = classify_key(&rules, Some("Rs")).unwrap();
    assert_eq!(class.category, "Development");
    assert_eq!(class.subcategory, "Rust");
}

#[test]
fn classify_with_user_rule_table() {
    let mut rules = RulesConfig::new();
    rules.add("abc", "Mine", "Letters");
    let class = classify_file(&rules, "x.ABC").unwrap();
    assert_eq!(class.category, "Mine");
    assert_eq!(class.subcategory, "Letters");
    assert!(classify_file(&rules, "x.pdf").is_err());
    let fallback = classify_or_fallback(&rules, "x.pdf");
    assert_eq!(fallback.category, FALLBACK_CATEGORY);
    assert_eq!(fallback.subcategory, FALLBACK_SUBCATEGORY);
}

#[test]
fn every_builtin_rule_is_reachable_in_any_case() {
    let rules = test_rules();
    for ext in rules.extensions() {
        let expected = rules.get(&ext).unwrap();
        for form in [ext.clone(), ext.to_uppercase(), format!(".{}", ext), format!(" {} ", ext)] {
            let found = classify_extension(&rules, &form).unwrap();
            assert_eq!(found.category, expected.category);
            assert_eq!(found.subcategory, expected.subcategory);
        }
    }
    let appimage = classify_extension(&rules, "AppImage").unwrap();
    assert_eq!(appimage.category, "Packages");
}
