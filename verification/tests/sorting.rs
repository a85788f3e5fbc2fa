use std::io;
use std::time::SystemTime;

use sortcrab::config::rules::RulesConfig;
use sortcrab::config::SemesterConfig;
use sortcrab::error::SortcrabError;
use sortcrab::organize::moving::{
    collision_candidate, collision_file_name, crosses_devices, dest_dir, EXDEV, Classification, MoveEvent, MoveOptions,
    MoveStep, MoveTask, RenameError,
};
use sortcrab::organize::semester::semester_from_time;
use sortcrab::organize::{relative_to, SortAction, SortEvent, SortSession};

fn no_semester() -> SemesterConfig {
    SemesterConfig { enabled: false, ..SemesterConfig::default() }
}

fn file(path: &str) -> SortEvent {
    let name = std::path::Path::new(path).file_name().map(|n| n.to_string_lossy().into_owned());
    SortEvent::File { path: path.to_string(), name }
}

/// Runs one file of a dry run through the session; `on_disk` lists the
/// candidates that exist already.
fn dry_run_file(
    session: &mut SortSession,
    rules: &RulesConfig,
    path: &str,
    on_disk: &[&str],
) -> SortAction {
    let mut action = session.step(rules, file(path));
    loop {
        action = match action {
            SortAction::NextEntry => return SortAction::NextEntry,
            SortAction::CheckSymlink { .. } => session.step(rules, SortEvent::SymlinkChecked(false)),
            SortAction::ReadModified { .. } => {
                session.step(rules, SortEvent::ModifiedRead(Some(SystemTime::now())))
            }
            SortAction::Canonicalize { .. } => session.step(
                rules,
                SortEvent::Canonicalized { source: Some(path.to_string()), dest_dir: None },
            ),
            SortAction::CheckCandidate { candidate } => {
                let exists = on_disk.contains(&candidate.as_str());
                session.step(rules, SortEvent::CandidateChecked(exists))
            }
            other => return other,
        };
    }
}

fn dests(session: &SortSession) -> Vec<String> {
    session.report.moves.iter().map(|m| m.dest_relative.clone()).collect()
}

#[test]
fn dry_run_predicts_destinations() {
    let rules = RulesConfig::default();
    let mut session = SortSession::new("/t", true, &no_semester());
    dry_run_file(&mut session, &rules, "/s/report.pdf", &[]);
    dry_run_file(&mut session, &rules, "/s/song.mp3", &[]);
    dry_run_file(&mut session, &rules, "/s/main.rs", &[]);
    let report = &session.report;
    assert_eq!(report.total, 3);
    assert_eq!(report.moved, 3);
    assert_eq!(report.skipped, 0);
    assert_eq!(report.errors, 0);
    assert_eq!(
        dests(&session),
        vec!["Documents/PDF/report.pdf", "Media/Audio/song.mp3", "Development/Rust/main.rs"]
    );
    assert!(session.report.moves.iter().all(|m| m.dry_run));
}

#[test]
fn dry_run_numbers_same_batch_collisions() {
    let rules = RulesConfig::default();
    let mut session = SortSession::new("/t", true, &no_semester());
    dry_run_file(&mut session, &rules, "/s/report.pdf", &[]);
    dry_run_file(&mut session, &rules, "/s/sub/report.pdf", &[]);
    dry_run_file(&mut session, &rules, "/s/other/report.pdf", &["/t/Documents/PDF/report-1.pdf"]);
    assert_eq!(
        dests(&session),
        vec!["Documents/PDF/report.pdf", "Documents/PDF/report-1.pdf", "Documents/PDF/report-2.pdf"]
    );
    assert_eq!(session.predicted.len(), 3);
}

#[test]
fn dry_run_with_semester_folder() {
    let rules = RulesConfig::default();
    let mut session = SortSession::new("/t", true, &SemesterConfig::default());
    dry_run_file(&mut session, &rules, "/s/report.pdf", &[]);
    let sem = semester_from_time(&SystemTime::now());
    assert_eq!(dests(&session), vec![format!("Documents/PDF/{}/report.pdf", sem)]);
}

#[test]
fn skips_and_errors_are_counted() {
    let rules = RulesConfig::default();
    let mut session = SortSession::new("/t", true, &no_semester());
    // a directory is not counted
    assert!(matches!(session.step(&rules, SortEvent::Directory), SortAction::NextEntry));
    // an unreadable entry is an error
    assert!(matches!(session.step(&rules, SortEvent::EntryFailed), SortAction::NextEntry));
    // a dotfile is skipped
    assert!(matches!(session.step(&rules, file("/s/.hidden.txt")), SortAction::NextEntry));
    // an unknown extension is an error (once it is known not to be a link)
    assert!(matches!(session.step(&rules, file("/s/data.xyz123")), SortAction::CheckSymlink { .. }));
    assert!(matches!(session.step(&rules, SortEvent::SymlinkChecked(false)), SortAction::NextEntry));
    // a file without a name as text is an error
    let nameless = SortEvent::File { path: "/s/x".to_string(), name: None };
    assert!(matches!(session.step(&rules, nameless), SortAction::NextEntry));
    // a symlink is skipped after classification
    assert!(matches!(session.step(&rules, file("/s/link.pdf")), SortAction::CheckSymlink { .. }));
    assert!(matches!(session.step(&rules, SortEvent::SymlinkChecked(true)), SortAction::NextEntry));
    // an unreadable modification time is an error
    session.step(&rules, file("/s/a.pdf"));
    session.step(&rules, SortEvent::SymlinkChecked(false));
    assert!(matches!(session.step(&rules, SortEvent::ModifiedRead(None)), SortAction::NextEntry));
    let report = session.into_report();
    assert_eq!(report.total, 6);
    assert_eq!(report.moved, 0);
    assert_eq!(report.skipped, 2);
    assert_eq!(report.errors, 4);
    assert_eq!(report.total, report.moved + report.skipped + report.errors);
    assert!(report.moves.is_empty());
}

#[test]
fn already_organised_file_is_skipped() {
    let rules = RulesConfig::default();
    let mut session = SortSession::new("/t", false, &no_semester());
    session.step(&rules, file("/t/Documents/PDF/report.pdf"));
    session.step(&rules, SortEvent::SymlinkChecked(false));
    let action = session.step(&rules, SortEvent::ModifiedRead(Some(SystemTime::now())));
    match action {
        SortAction::Canonicalize { path, dest_dir } => {
            assert_eq!(path, "/t/Documents/PDF/report.pdf");
            assert_eq!(dest_dir, "/t/Documents/PDF/");
        }
        _ => panic!("expected a canonicalisation request"),
    }
    let action = session.step(
        &rules,
        SortEvent::Canonicalized {
            source: Some("/t/Documents/PDF/report.pdf".to_string()),
            dest_dir: Some("/t/Documents/PDF".to_string()),
        },
    );
    assert!(matches!(action, SortAction::NextEntry));
    assert_eq!(session.report.skipped, 1);
    assert_eq!(session.report.total, 1);
}

#[test]
fn real_run_asks_for_the_move_and_records_it() {
    let rules = RulesConfig::default();
    let mut session = SortSession::new("/t", false, &no_semester());
    session.step(&rules, file("/s/song.mp3"));
    session.step(&rules, SortEvent::SymlinkChecked(false));
    session.step(&rules, SortEvent::ModifiedRead(Some(SystemTime::now())));
    let action = session.step(&rules, SortEvent::Canonicalized { source: None, dest_dir: None });
    match action {
        SortAction::MoveFile { source, classification, semester, filename } => {
            assert_eq!(source, "/s/song.mp3");
            assert_eq!(classification.category, "Media");
            assert_eq!(classification.subcategory, "Audio");
            assert_eq!(semester, "");
            assert_eq!(filename, "song.mp3");
        }
        _ => panic!("expected a move request"),
    }
    let action =
        session.step(&rules, SortEvent::MoveFinished(Ok("/t/Media/Audio/song.mp3".to_string())));
    assert!(matches!(action, SortAction::NextEntry));
    assert_eq!(session.report.moved, 1);
    assert_eq!(dests(&session), vec!["Media/Audio/song.mp3"]);
    assert!(!session.report.moves[0].dry_run);

    // a move that was skipped, and one that failed
    for outcome in [
        Err(SortcrabError::Skipped("symlink: b.mp3".to_string())),
        Err(SortcrabError::Io(io::Error::new(io::ErrorKind::Other, "disk full"))),
    ] {
        session.step(&rules, file("/s/b.mp3"));
        session.step(&rules, SortEvent::SymlinkChecked(false));
        session.step(&rules, SortEvent::ModifiedRead(Some(SystemTime::now())));
        session.step(&rules, SortEvent::Canonicalized { source: None, dest_dir: None });
        session.step(&rules, SortEvent::MoveFinished(outcome));
    }
    let report = session.into_report();
    assert_eq!((report.total, report.moved, report.skipped, report.errors), (3, 1, 1, 1));
}

#[test]
fn relative_paths() {
    assert_eq!(relative_to("/t/Documents/PDF/a.pdf", "/t"), "Documents/PDF/a.pdf");
    assert_eq!(relative_to("/elsewhere/a.pdf", "/t"), "/elsewhere/a.pdf");
    assert_eq!(relative_to("/tt/a.pdf", "/t"), "/tt/a.pdf");
}

// ── moving one file ─────────────────────────────────────────────

fn academic() -> Classification {
    Classification { category: "academic".to_string(), subcategory: "math".to_string() }
}

#[test]
fn destination_names() {
    assert_eq!(dest_dir("/t", &academic(), "2025-I"), "/t/academic/math/2025-I");
    assert_eq!(collision_file_name("report.pdf", 0), "report.pdf");
    assert_eq!(collision_file_name("report.pdf", 2), "report-2.pdf");
    assert_eq!(collision_file_name("archive.tar.gz", 1), "archive.tar-1.gz");
    assert_eq!(collision_file_name("Makefile", 3), "Makefile-3");
    assert_eq!(collision_file_name("file.", 1), "file-1");
    assert_eq!(
        collision_candidate("/t/academic/math/2025-I", "notes.pdf", 12),
        "/t/academic/math/2025-I/notes-12.pdf"
    );
}

#[test]
fn mover_basic_move_steps() {
    let class = academic();
    let opts = MoveOptions {
        source: "/s/notes.pdf",
        target: "/t",
        classification: &class,
        semester: "2025-I",
        filename: "notes.pdf",
    };
    let (mut task, step) = MoveTask::start(&opts);
    assert!(matches!(step, MoveStep::CheckSymlink { ref source } if source == "/s/notes.pdf"));
    let step = task.step(MoveEvent::SymlinkChecked(Ok(false)));
    assert!(matches!(step, MoveStep::Canonicalize { .. }));
    let step = task.step(MoveEvent::Canonicalized { source: Some("/s/notes.pdf".to_string()), dest_dir: None });
    assert!(matches!(step, MoveStep::CreateDir { ref dest_dir } if dest_dir == "/t/academic/math/2025-I"));
    let step = task.step(MoveEvent::DirCreated(Ok(())));
    assert!(
        matches!(step, MoveStep::CheckExists { ref candidate } if candidate == "/t/academic/math/2025-I/notes.pdf")
    );
    let step = task.step(MoveEvent::ExistsChecked(false));
    assert!(matches!(step, MoveStep::Rename { ref dest, .. } if dest == "/t/academic/math/2025-I/notes.pdf"));
    match task.step(MoveEvent::Renamed(Ok(()))) {
        MoveStep::Done(Ok(dest)) => assert_eq!(dest, "/t/academic/math/2025-I/notes.pdf"),
        _ => panic!("expected the move to finish"),
    }
}

#[test]
fn mover_collision_numbering_steps() {
    let class = academic();
    let opts = MoveOptions {
        source: "/s/src-2-report.pdf",
        target: "/t",
        classification: &class,
        semester: "2025-I",
        filename: "report.pdf",
    };
    let (mut task, _) = MoveTask::start(&opts);
    task.step(MoveEvent::SymlinkChecked(Ok(false)));
    task.step(MoveEvent::Canonicalized { source: None, dest_dir: None });
    task.step(MoveEvent::DirCreated(Ok(())));
    let step = task.step(MoveEvent::ExistsChecked(true));
    assert!(matches!(step, MoveStep::CheckExists { ref candidate } if candidate.ends_with("report-1.pdf")));
    let step = task.step(MoveEvent::ExistsChecked(true));
    assert!(matches!(step, MoveStep::CheckExists { ref candidate } if candidate.ends_with("report-2.pdf")));
    let step = task.step(MoveEvent::ExistsChecked(false));
    assert!(
        matches!(step, MoveStep::Rename { ref dest, .. } if dest == "/t/academic/math/2025-I/report-2.pdf")
    );
}

#[test]
fn mover_skip_dotfiles_step() {
    let class = academic();
    let opts = MoveOptions {
        source: "/s/.hidden.txt",
        target: "/t",
        classification: &class,
        semester: "2025-I",
        filename: ".hidden.txt",
    };
    let (_, step) = MoveTask::start(&opts);
    match step {
        MoveStep::Done(Err(SortcrabError::Skipped(ref msg))) => {
            assert!(msg.contains("dotfile"), "error should mention dotfile: {}", msg);
            assert_eq!(msg, "dotfile: .hidden.txt");
        }
        _ => panic!("expected Skipped error"),
    }
}

#[test]
fn mover_skip_symlink_step() {
    let class = academic();
    let opts = MoveOptions {
        source: "/s/link.txt",
        target: "/t",
        classification: &class,
        semester: "2025-I",
        filename: "link.txt",
    };
    let (mut task, _) = MoveTask::start(&opts);
    match task.step(MoveEvent::SymlinkChecked(Ok(true))) {
        MoveStep::Done(Err(SortcrabError::Skipped(ref msg))) => assert_eq!(msg, "symlink: link.txt"),
        _ => panic!("expected Skipped error"),
    }
}

#[test]
fn mover_idempotent_step() {
    let class = academic();
    let opts = MoveOptions {
        source: "/t/academic/math/2025-I/already.pdf",
        target: "/t",
        classification: &class,
        semester: "2025-I",
        filename: "already.pdf",
    };
    let (mut task, _) = MoveTask::start(&opts);
    task.step(MoveEvent::SymlinkChecked(Ok(false)));
    let step = task.step(MoveEvent::Canonicalized {
        source: Some("/t/academic/math/2025-I/already.pdf".to_string()),
        dest_dir: Some("/t/academic/math/2025-I".to_string()),
    });
    match step {
        MoveStep::Done(Ok(dest)) => assert_eq!(dest, "/t/academic/math/2025-I/already.pdf"),
        _ => panic!("expected the file to stay"),
    }
}

#[test]
fn mover_io_errors_finish_the_task() {
    let class = academic();
    let opts = MoveOptions {
        source: "/s/a.pdf",
        target: "/t",
        classification: &class,
        semester: "",
        filename: "a.pdf",
    };
    let (mut task, _) = MoveTask::start(&opts);
    let step = task.step(MoveEvent::SymlinkChecked(Err(io::Error::new(io::ErrorKind::NotFound, "gone"))));
    assert!(matches!(step, MoveStep::Done(Err(SortcrabError::Io(_)))));

    let (mut task, _) = MoveTask::start(&opts);
    task.step(MoveEvent::SymlinkChecked(Ok(false)));
    task.step(MoveEvent::Canonicalized { source: None, dest_dir: None });
    let step = task.step(MoveEvent::DirCreated(Err(io::Error::new(io::ErrorKind::PermissionDenied, "no"))));
    assert!(matches!(step, MoveStep::Done(Err(SortcrabError::Io(_)))));
}

#[test]
fn mover_cross_device_copies_then_removes() {
    let class = academic();
    let opts = MoveOptions {
        source: "/s/a.pdf",
        target: "/t",
        classification: &class,
        semester: "2025-I",
        filename: "a.pdf",
    };
    let (mut task, _) = MoveTask::start(&opts);
    task.step(MoveEvent::SymlinkChecked(Ok(false)));
    task.step(MoveEvent::Canonicalized { source: None, dest_dir: None });
    task.step(MoveEvent::DirCreated(Ok(())));
    task.step(MoveEvent::ExistsChecked(false));
    let step = task.step(MoveEvent::Renamed(Err(RenameError::new(io::Error::from_raw_os_error(18)))));
    assert!(matches!(step, MoveStep::Copy { ref dest, .. } if dest == "/t/academic/math/2025-I/a.pdf"));
    let step = task.step(MoveEvent::Copied(Ok(())));
    assert!(matches!(step, MoveStep::RemoveSource { ref source } if source == "/s/a.pdf"));
    match task.step(MoveEvent::Removed(Ok(()))) {
        MoveStep::Done(Ok(dest)) => assert_eq!(dest, "/t/academic/math/2025-I/a.pdf"),
        _ => panic!("expected the move to finish"),
    }

    let (mut task, _) = MoveTask::start(&opts);
    task.step(MoveEvent::SymlinkChecked(Ok(false)));
    task.step(MoveEvent::Canonicalized { source: None, dest_dir: None });
    task.step(MoveEvent::DirCreated(Ok(())));
    task.step(MoveEvent::ExistsChecked(false));
    let step = task.step(MoveEvent::Renamed(Err(RenameError::new(io::Error::new(io::ErrorKind::PermissionDenied, "no")))));
    assert!(matches!(step, MoveStep::Done(Err(SortcrabError::Io(_)))));
}

#[test]
fn open_refuses_a_source_that_is_not_a_directory() {
    let result = SortSession::open(
        std::path::PathBuf::from("/s/file.pdf"),
        false,
        "/t",
        false,
        &SemesterConfig::default(),
    );
    match result {
        Err(SortcrabError::InvalidPath(p)) => assert_eq!(p, std::path::PathBuf::from("/s/file.pdf")),
        Err(other) => panic!("expected InvalidPath, got: {other:?}"),
        Ok(_) => panic!("expected InvalidPath"),
    }
    let session = SortSession::open(std::path::PathBuf::from("/s"), true, "/t", true, &no_semester()).unwrap();
    assert_eq!(session.target, "/t");
    assert!(session.dry_run);
    assert_eq!(session.report.total, 0);
}

#[test]
fn rename_error_classification() {
    assert!(RenameError::new(io::Error::from_raw_os_error(18)).crosses_devices);
    assert!(RenameError::new(io::Error::new(io::ErrorKind::CrossesDevices, "x")).crosses_devices);
    assert!(!RenameError::new(io::Error::new(io::ErrorKind::NotFound, "x")).crosses_devices);
}

#[test]
fn symlink_with_unknown_extension_is_skipped() {
    let rules = RulesConfig::default();
    let mut session = SortSession::new("/t", false, &no_semester());
    assert!(matches!(session.step(&rules, file("/s/link.xyz")), SortAction::CheckSymlink { .. }));
    assert!(matches!(session.step(&rules, SortEvent::SymlinkChecked(true)), SortAction::NextEntry));
    let report = session.into_report();
    assert_eq!((report.total, report.moved, report.skipped, report.errors), (1, 0, 1, 0));
}

#[test]
fn crosses_devices_decision() {
    assert!(crosses_devices(true, None));
    assert!(crosses_devices(false, Some(EXDEV)));
    assert!(crosses_devices(true, Some(2)));
    assert!(!crosses_devices(false, Some(2)));
    assert!(!crosses_devices(false, None));
    let e = RenameError::classified(io::Error::new(io::ErrorKind::Other, "x"), false, Some(18));
    assert!(e.crosses_devices);
    let e = RenameError::classified(io::Error::new(io::ErrorKind::Other, "x"), false, None);
    assert!(!e.crosses_devices);
}
