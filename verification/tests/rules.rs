use sortcrab::config::rules::{Rule, RulesConfig};
use sortcrab::config::{ConfigManager, SemesterConfig, SortcrabConfig};

#[test]
fn test_default_rules_count() {
    let config = RulesConfig::default();
    assert!(config.len() >= 45, "Expected >= 45 rules, got {}", config.len());
}

#[test]
fn test_default_rules_have_expected_extensions() {
    let config = RulesConfig::default();
    assert_eq!(config.get("pdf").unwrap().category, "Documents");
    assert_eq!(config.get("pdf").unwrap().subcategory, "PDF");
    assert_eq!(config.get("mp3").unwrap().category, "Media");
    assert_eq!(config.get("mp3").unwrap().subcategory, "Audio");
    assert_eq!(config.get("rs").unwrap().category, "Development");
    assert_eq!(config.get("rs").unwrap().subcategory, "Rust");
    assert_eq!(config.get("zip").unwrap().category, "Archives");
}

#[test]
fn test_merge_overrides() {
    let defaults = RulesConfig::default();
    let mut user_config = RulesConfig::new();
    user_config.insert("pdf".to_string(), Rule::new("MyDocs", "PDFs"));

    let merged = defaults.merge(user_config);

    assert_eq!(merged.get("pdf").unwrap().category, "MyDocs");
    assert_eq!(merged.get("pdf").unwrap().subcategory, "PDFs");
    assert_eq!(merged.get("mp3").unwrap().category, "Media");
    assert_eq!(merged.get("mp3").unwrap().subcategory, "Audio");
}

#[test]
fn test_merge_preserves_defaults() {
    let defaults = RulesConfig::default();
    let user_config = RulesConfig::new();

    let merged = defaults.merge(user_config);

    assert!(merged.len() >= 45);
    assert_eq!(merged.get("pdf").unwrap().category, "Documents");
    assert_eq!(merged.get("rs").unwrap().subcategory, "Rust");
}

#[test]
fn config_test_sortcrab_config_default() {
    let config = SortcrabConfig::default();
    assert!(!config.rules.is_empty(), "default rules should not be empty");
    assert_eq!(config.version, "1");
}

#[test]
fn mod_test_sortcrab_config_default() {
    let config = SortcrabConfig::default();
    assert!(!config.rules.is_empty(), "default rules should not be empty");
    assert_eq!(config.version, "1");
}

// ── the rules table ─────────────────────────────────────────────

#[test]
fn default_rules_count_is_exact_and_distinct() {
    let config = RulesConfig::default();
    let exts = config.extensions();
    assert_eq!(exts.len(), config.len());
    let mut sorted = exts.clone();
    sorted.sort();
    sorted.dedup();
    assert_eq!(sorted.len(), exts.len());
    assert_eq!(config.len(), 79);
}

#[test]
fn insert_then_get_gives_the_rule() {
    let mut rules = RulesConfig::new();
    assert!(rules.is_empty());
    assert!(rules.get("pdf").is_none());
    rules.add("pdf", "A", "B");
    rules.add("pdf", "C", "D");
    assert_eq!(rules.len(), 1);
    assert!(rules.contains("pdf"));
    assert!(!rules.contains("PDF"));
    let r = rules.get("pdf").unwrap();
    assert_eq!(r.category, "C");
    assert_eq!(r.subcategory, "D");
}

#[test]
fn merge_adds_new_extensions() {
    let defaults = RulesConfig::default();
    let before = defaults.len();
    let mut user = RulesConfig::new();
    user.add("xyz123", "Custom", "Things");
    user.add("pdf", "Documents", "PDF");
    let merged = defaults.merge(user);
    assert_eq!(merged.len(), before + 1);
    assert_eq!(merged.get("xyz123").unwrap().category, "Custom");
    assert_eq!(merged.get("pdf").unwrap().subcategory, "PDF");
}

#[test]
fn merge_into_empty_keeps_user_rules() {
    let mut user = RulesConfig::new();
    user.add("a", "X", "Y");
    let merged = RulesConfig::new().merge(user);
    assert_eq!(merged.len(), 1);
    assert_eq!(merged.get("a").unwrap().category, "X");
}

#[test]
fn rule_duplicate_keeps_fields() {
    let r = Rule::new("Media", "Audio");
    let d = r.duplicate();
    assert_eq!(d.category, "Media");
    assert_eq!(d.subcategory, "Audio");
}

// ── loading and writing the configuration ───────────────────────

#[test]
fn merge_loaded_takes_user_settings_over_defaults() {
    let mut rules = RulesConfig::new();
    rules.add("pdf", "Papers", "All");
    let user = SortcrabConfig {
        version: "2".to_string(),
        semester: SemesterConfig {
            enabled: false,
            months_per_period: 3,
            folder_format: "{year}Q{period}".to_string(),
        },
        rules,
    };
    let merged = ConfigManager::merge_loaded(user);
    assert_eq!(merged.version, "2");
    assert!(!merged.semester.enabled);
    assert_eq!(merged.semester.months_per_period, 3);
    assert_eq!(merged.semester.folder_format, "{year}Q{period}");
    assert_eq!(merged.rules.get("pdf").unwrap().category, "Papers");
    assert_eq!(merged.rules.get("mp3").unwrap().subcategory, "Audio");
    assert_eq!(merged.rules.len(), RulesConfig::default().len());
}

#[test]
fn semester_config_default_values() {
    let s = SemesterConfig::default();
    assert!(s.enabled);
    assert_eq!(s.months_per_period, 6);
    assert_eq!(s.folder_format, "{year}-{roman}");
    let off = s.disabled();
    assert!(!off.enabled);
    assert_eq!(off.months_per_period, 6);
    assert_eq!(off.folder_format, "{year}-{roman}");
}

#[test]
fn default_file_text_layout() {
    let text = ConfigManager::default_file_text();
    assert!(text.starts_with(
        "version = \"1\"\n\n[semester]\nenabled = true\nmonths_per_period = 6\nfolder_format = \"{year}-{roman}\"\n\n[rules]\n"
    ));
    assert!(text.contains("pdf = { category = \"Documents\", subcategory = \"PDF\" }\n"));
    assert!(text.contains("mp3 = { category = \"Media\", subcategory = \"Audio\" }\n"));
    let rule_lines: Vec<&str> = text
        .lines()
        .skip_while(|l| *l != "[rules]")
        .skip(1)
        .collect();
    assert_eq!(rule_lines.len(), RulesConfig::default().len());
    let keys: Vec<&str> = rule_lines.iter().map(|l| l.split(' ').next().unwrap()).collect();
    let mut sorted = keys.clone();
    sorted.sort();
    assert_eq!(keys, sorted);
    assert_eq!(keys[0], "7z");
}

#[test]
fn config_file_in_joins_name() {
    assert_eq!(ConfigManager::config_file_in("/tmp/cfg"), "/tmp/cfg/config.toml");
}

#[test]
fn config_test_config_path_ends_with_config_toml() {
    let path = ConfigManager::config_path().unwrap();
    assert!(std::path::Path::new(&path).ends_with("config.toml"));
}

#[test]
fn mod_test_config_path_ends_with_config_toml() {
    let path = ConfigManager::config_path().unwrap();
    assert!(std::path::Path::new(&path).ends_with("config.toml"));
}

#[test]
fn config_test_config_dir_ends_with_sortcrab() {
    let path = ConfigManager::config_dir().unwrap();
    assert!(std::path::Path::new(&path).ends_with("sortcrab"));
}

#[test]
fn mod_test_config_dir_ends_with_sortcrab() {
    let path = ConfigManager::config_dir().unwrap();
    assert!(std::path::Path::new(&path).ends_with("sortcrab"), "expected ~/.config/sortcrab");
}

#[test]
fn config_path_is_inside_config_dir() {
    let dir = ConfigManager::config_dir().unwrap();
    let path = ConfigManager::config_path().unwrap();
    assert_eq!(path, ConfigManager::config_file_in(&dir));
}

#[test]
fn default_file_text_reads_back_as_the_defaults() {
    let table: toml::Table = toml::from_str(&ConfigManager::default_file_text()).unwrap();
    assert_eq!(table["version"].as_str(), Some("1"));
    let semester = table["semester"].as_table().unwrap();
    assert_eq!(semester["enabled"].as_bool(), Some(true));
    assert_eq!(semester["months_per_period"].as_integer(), Some(6));
    assert_eq!(semester["folder_format"].as_str(), Some("{year}-{roman}"));
    let rules = table["rules"].as_table().unwrap();
    let defaults = RulesConfig::default();
    assert_eq!(rules.len(), defaults.len());
    for ext in defaults.extensions() {
        let rule = defaults.get(&ext).unwrap();
        let entry = rules[ext.as_str()].as_table().unwrap();
        assert_eq!(entry["category"].as_str(), Some(rule.category.as_str()));
        assert_eq!(entry["subcategory"].as_str(), Some(rule.subcategory.as_str()));
    }
}

#[test]
fn config_dir_from_lookup_result() {
    assert_eq!(
        ConfigManager::config_dir_from(Some("/home/u/.config/sortcrab".to_string())).unwrap(),
        "/home/u/.config/sortcrab"
    );
    match ConfigManager::config_dir_from(None) {
        Err(sortcrab::error::SortcrabError::Config(m)) => {
            assert_eq!(m, "could not determine config directory")
        }
        _ => panic!("expected a configuration error"),
    }
}

#[test]
fn project_names_of_the_lookup() {
    assert_eq!(ConfigManager::project_names(), ("com", "", "sortcrab"));
}
