use sortcrab::cli::args::{ConfigArgs, SortArgs};
use sortcrab::cli::display::{print_move_tree, sort_names};
use sortcrab::cli::{handle_config, resolve_home, sort_paths, sort_semester, summary_line, ConfigAction};
use sortcrab::config::SemesterConfig;
use sortcrab::organize::{MoveRecord, SortReport};

#[test]
fn test_handle_config_debug_no_action() {
    let args = ConfigArgs { show: false, edit: false };
    let result = handle_config(args);
    assert!(result == ConfigAction::Nothing);
}

#[test]
fn handle_config_show_wins_over_edit() {
    assert!(handle_config(ConfigArgs { show: true, edit: true }) == ConfigAction::Print);
    assert!(handle_config(ConfigArgs { show: true, edit: false }) == ConfigAction::Print);
    assert!(handle_config(ConfigArgs { show: false, edit: true }) == ConfigAction::Edit);
}

#[test]
fn sort_semester_no_semester_flag_disables_grouping() {
    let cfg = SemesterConfig {
        enabled: true,
        months_per_period: 3,
        folder_format: "{year}Q{period}".to_string(),
    };
    let off = sort_semester(&cfg, true);
    assert!(!off.enabled);
    assert_eq!(off.months_per_period, 3);
    assert_eq!(off.folder_format, "{year}Q{period}");
    let on = sort_semester(&cfg, false);
    assert!(on.enabled);
    let disabled = SemesterConfig { enabled: false, ..SemesterConfig::default() };
    assert!(!sort_semester(&disabled, false).enabled);
}

#[test]
fn sort_paths_defaults_target_to_source() {
    let args = SortArgs { source: "/data/inbox".to_string(), target: None };
    let (source, target) = sort_paths(&args);
    assert_eq!(source, "/data/inbox");
    assert_eq!(target, "/data/inbox");
}

#[test]
fn sort_paths_keeps_given_target() {
    let args = SortArgs { source: "/data/inbox".to_string(), target: Some("/data/out".to_string()) };
    let (source, target) = sort_paths(&args);
    assert_eq!(source, "/data/inbox");
    assert_eq!(target, "/data/out");
}

#[test]
fn sort_paths_expands_home() {
    let args = SortArgs { source: "~/Downloads".to_string(), target: None };
    let (source, target) = sort_paths(&args);
    assert!(source.ends_with("/Downloads"));
    assert!(!source.starts_with('~'));
    assert_eq!(source, target);
    let other = SortArgs { source: "~someone/x".to_string(), target: Some("a~b".to_string()) };
    let (s, t) = sort_paths(&other);
    assert_eq!(s, "~someone/x");
    assert_eq!(t, "a~b");
}

#[test]
fn resolve_home_cases() {
    assert_eq!(resolve_home("~/Downloads", Some("/home/u")), "/home/u/Downloads");
    assert_eq!(resolve_home("~", Some("/home/u")), "/home/u");
    assert_eq!(resolve_home("~/", Some("/home/u")), "/home/u");
    assert_eq!(resolve_home("~//x/y", Some("/home/u")), "/home/u/x/y");
    assert_eq!(resolve_home("~user", Some("/home/u")), "/home/u/user");
    assert_eq!(resolve_home("~/Downloads", None), "~/Downloads");
    assert_eq!(resolve_home("/abs/path", Some("/home/u")), "/abs/path");
    assert_eq!(resolve_home("", Some("/home/u")), "");
}

#[test]
fn summary_lines() {
    let mut report = SortReport::new();
    report.total = 5;
    report.moved = 3;
    report.skipped = 1;
    report.errors = 1;
    assert_eq!(summary_line(&report, false), "\nSorted 3 files, skipped 1, 1 errors");
    assert_eq!(summary_line(&report, true), "\nDry run: would move 3 files, skip 1, 1 errors");
    let empty = SortReport::new();
    assert_eq!(summary_line(&empty, false), "\nSorted 0 files, skipped 0, 0 errors");
}

fn record(path: &str) -> MoveRecord {
    MoveRecord { dest_relative: path.to_string(), dry_run: false }
}

#[test]
fn move_tree_empty() {
    assert!(print_move_tree(&Vec::new()).is_empty());
}

#[test]
fn move_tree_dirs_first_then_files_sorted() {
    let actions = vec![
        record("Documents/PDF/2025-I/report.pdf"),
        record("Media/Audio/2025-I/song.mp3"),
        record("Documents/PDF/2025-I/a.pdf"),
        record("Documents/notes.txt"),
    ];
    let lines = print_move_tree(&actions);
    let expected = vec![
        "├── Documents/",
        "│   ├── PDF/",
        "│   │   └── 2025-I/",
        "│   │       ├── a.pdf",
        "│   │       └── report.pdf",
        "│   └── notes.txt",
        "└── Media/",
        "    └── Audio/",
        "        └── 2025-I/",
        "            └── song.mp3",
    ];
    assert_eq!(lines, expected);
}

#[test]
fn move_tree_top_level_files() {
    let actions = vec![record("b.txt"), record("x/a.txt"), record("a.txt")];
    let lines = print_move_tree(&actions);
    assert_eq!(lines, vec!["├── x/", "│   └── a.txt", "├── a.txt", "└── b.txt"]);
}

#[test]
fn move_tree_repeated_file_names_are_kept() {
    let actions = vec![record("d/r.pdf"), record("d/r.pdf")];
    let lines = print_move_tree(&actions);
    assert_eq!(lines, vec!["└── d/", "    ├── r.pdf", "    └── r.pdf"]);
}

#[test]
fn sort_names_orders_and_keeps_duplicates() {
    let names = vec!["b".to_string(), "a".to_string(), "B".to_string(), "a".to_string()];
    let sorted = sort_names(&names);
    assert_eq!(sorted, vec!["B", "a", "a", "b"]);
}
