//! Core domain logic: classification, period labels, moving and sorting.
//!
//! Sorting a directory alternates filesystem work with decisions. The
//! decisions stand here, in [`SortSession`]: it takes what the filesystem
//! answered about an entry and says what to ask next, keeping the counts of
//! the [`SortReport`].

pub mod classify;
pub mod moving;
pub mod paths;
pub mod semester;

use vstd::prelude::*;
use vstd::string::*;

use crate::config::rules::RulesConfig;
use crate::config::SemesterConfig;
use crate::error::SortcrabError;
use crate::organize::classify::{classify_file, key_outcome, lookup_text};
use crate::organize::moving::{
    candidate_of, collision_candidate, dest_dir, dest_dir_of, Classification,
};
use crate::organize::paths::{
    opt_view, path_file_name_of, path_starts_with, path_starts_with_of, path_strip_prefix,
    path_strip_prefix_of,
};
use crate::organize::semester::{label_text, period_of, semester_label};
use crate::text::{starts_with_char, str_eq, views};

verus! {

/// A recorded move, used for the tree display.
#[derive(Debug)]
pub struct MoveRecord {
    /// The destination path relative to the target directory.
    pub dest_relative: String,
    /// Whether this was a dry-run prediction rather than an actual move.
    pub dry_run: bool,
}

/// Statistics collected during a sort.
#[derive(Debug)]
pub struct SortReport {
    /// Files processed (directories are not counted).
    pub total: usize,
    /// Files moved (or, in a dry run, that would be moved).
    pub moved: usize,
    /// Files deliberately skipped: dotfiles, symlinks, already organised.
    pub skipped: usize,
    /// Files that met an error: unknown extension, I/O failure, ...
    pub errors: usize,
    /// One record per move, for the tree display.
    pub moves: Vec<MoveRecord>,
}

impl SortReport {
    /// Every processed file is counted exactly once as moved, skipped or an
    /// error, and every move has its record.
    pub open spec fn balanced(&self) -> bool {
        &&& self.total == self.moved + self.skipped + self.errors
        &&& self.moves@.len() == self.moved
    }

    /// An empty report.
    pub fn new() -> (r: SortReport)
        ensures
            r.total == 0 && r.moved == 0 && r.skipped == 0 && r.errors == 0,
            r.moves@.len() == 0,
            r.balanced(),
    {
        SortReport { total: 0, moved: 0, skipped: 0, errors: 0, moves: Vec::new() }
    }
}

impl Default for SortReport {
    fn default() -> (r: SortReport)
        ensures
            r.total == 0 && r.moved == 0 && r.skipped == 0 && r.errors == 0,
            r.moves@.len() == 0,
    {
        SortReport::new()
    }
}

/// What the filesystem answered about the current entry.
#[derive(Debug)]
pub enum SortEvent {
    /// The directory listing could not produce the entry.
    EntryFailed,
    /// The entry is a directory (it is not sorted and not counted).
    Directory,
    /// The entry is a file (or a link) at `path`; `name` is its file name as
    /// text, `None` when it has none or it is not valid UTF-8.
    File { path: String, name: Option<String> },
    /// Whether the file is itself a symbolic link.
    SymlinkChecked(bool),
    /// The file's modification time, `None` when it could not be read.
    ModifiedRead(Option<std::time::SystemTime>),
    /// The canonical forms of the file and of its destination directory,
    /// each `None` when it could not be computed.
    Canonicalized { source: Option<String>, dest_dir: Option<String> },
    /// Whether the candidate destination exists on disk (dry run).
    CandidateChecked(bool),
    /// The outcome of moving the file.
    MoveFinished(Result<String, SortcrabError>),
}

/// What to ask the filesystem next.
#[derive(Debug)]
pub enum SortAction {
    /// Go on with the next directory entry.
    NextEntry,
    /// Is the file at `path` itself a symbolic link?
    CheckSymlink { path: String },
    /// Read the modification time of the file at `path`.
    ReadModified { path: String },
    /// Canonicalise `path` and `dest_dir`.
    Canonicalize { path: String, dest_dir: String },
    /// Does `candidate` exist? (dry run)
    CheckCandidate { candidate: String },
    /// Move `source` into the tree with these options.
    MoveFile { source: String, classification: Classification, semester: String, filename: String },
}

/// Where the session stands with the current entry.
#[derive(Debug)]
pub enum SortStage {
    Idle,
    AwaitSymlink { path: String, name: String },
    AwaitModified { path: String, name: String, class: Classification },
    AwaitOrganised { path: String, name: String, class: Classification, semester: String, dest_dir: String },
    AwaitCandidate { dest_dir: String, name: String, counter: u64, candidate: String },
    AwaitMove,
}

/// Whether `event` answers what a session in `stage` waits for.
pub open spec fn sort_event_fits(stage: SortStage, event: SortEvent) -> bool {
    match stage {
        SortStage::Idle => event is EntryFailed || event is Directory || event is File,
        SortStage::AwaitSymlink { .. } => event is SymlinkChecked,
        SortStage::AwaitModified { .. } => event is ModifiedRead,
        SortStage::AwaitOrganised { .. } => event is Canonicalized,
        SortStage::AwaitCandidate { .. } => event is CandidateChecked,
        SortStage::AwaitMove => event is MoveFinished,
    }
}

/// A destination relative to the target, or the whole destination when it
/// is not under the target.
pub open spec fn relative_of(dest: Seq<char>, target: Seq<char>) -> Seq<char> {
    match path_strip_prefix_of(dest, target) {
        Some(r) => r,
        None => dest,
    }
}

/// The counters moved on by the given amounts, and the records kept.
pub open spec fn counted(
    old_report: SortReport,
    new_report: SortReport,
    total: int,
    moved: int,
    skipped: int,
    errors: int,
) -> bool {
    &&& new_report.total == old_report.total + total
    &&& new_report.moved == old_report.moved + moved
    &&& new_report.skipped == old_report.skipped + skipped
    &&& new_report.errors == old_report.errors + errors
}

/// The records are the old ones with one record pushed.
pub open spec fn record_pushed(
    old_moves: Seq<MoveRecord>,
    new_moves: Seq<MoveRecord>,
    dest_relative: Seq<char>,
    dry_run: bool,
) -> bool {
    &&& new_moves.len() == old_moves.len() + 1
    &&& new_moves.take(old_moves.len() as int) == old_moves
    &&& new_moves.last().dest_relative@ == dest_relative
    &&& new_moves.last().dry_run == dry_run
}

/// The period folder of a file: empty when grouping is off, otherwise the
/// label of some local year and month.
pub open spec fn semester_folder(cfg: SemesterConfig, folder: Seq<char>) -> bool {
    if cfg.enabled {
        exists|year: i32, month: u32|
            1 <= month <= 12 && folder == label_text(
                cfg.folder_format@,
                year as int,
                period_of(month, cfg.months_per_period),
            )
    } else {
        folder == Seq::<char>::empty()
    }
}

/// The path of the file being handled in `stage`.
pub open spec fn stage_path(stage: SortStage) -> Seq<char> {
    match stage {
        SortStage::AwaitSymlink { path, .. } => path@,
        SortStage::AwaitModified { path, .. } => path@,
        SortStage::AwaitOrganised { path, .. } => path@,
        _ => Seq::empty(),
    }
}

/// The file name of the file being handled in `stage`.
pub open spec fn stage_name(stage: SortStage) -> Seq<char> {
    match stage {
        SortStage::AwaitSymlink { name, .. } => name@,
        SortStage::AwaitModified { name, .. } => name@,
        SortStage::AwaitOrganised { name, .. } => name@,
        SortStage::AwaitCandidate { name, .. } => name@,
        _ => Seq::empty(),
    }
}

/// The classification of the file being handled in `stage`.
pub open spec fn stage_class(stage: SortStage) -> (Seq<char>, Seq<char>) {
    match stage {
        SortStage::AwaitModified { class, .. } => class@,
        SortStage::AwaitOrganised { class, .. } => class@,
        _ => (Seq::empty(), Seq::empty()),
    }
}

/// The period folder chosen for the file being handled in `stage`.
pub open spec fn stage_semester(stage: SortStage) -> Seq<char> {
    match stage {
        SortStage::AwaitOrganised { semester, .. } => semester@,
        _ => Seq::empty(),
    }
}

/// The destination directory of the file being handled in `stage`.
pub open spec fn stage_dest_dir(stage: SortStage) -> Seq<char> {
    match stage {
        SortStage::AwaitOrganised { dest_dir, .. } => dest_dir@,
        SortStage::AwaitCandidate { dest_dir, .. } => dest_dir@,
        _ => Seq::empty(),
    }
}

/// The candidate destination being tried in `stage`.
pub open spec fn stage_candidate(stage: SortStage) -> Seq<char> {
    match stage {
        SortStage::AwaitCandidate { candidate, .. } => candidate@,
        _ => Seq::empty(),
    }
}

/// The path of a `File` event.
pub open spec fn event_path(event: SortEvent) -> Seq<char> {
    match event {
        SortEvent::File { path, .. } => path@,
        _ => Seq::empty(),
    }
}

/// The file name of a `File` event.
pub open spec fn event_name(event: SortEvent) -> Option<Seq<char>> {
    match event {
        SortEvent::File { name, .. } => opt_view(name),
        _ => None,
    }
}

/// Whether a name starts with a dot.
pub open spec fn is_dot_name(name: Seq<char>) -> bool {
    name.len() > 0 && name[0] == '.'
}

/// Whether both canonical paths are known and the file lies inside its
/// destination directory.
pub open spec fn organised_already(event: SortEvent) -> bool {
    match event {
        SortEvent::Canonicalized { source: Some(s), dest_dir: Some(d) } => path_starts_with_of(
            s@,
            d@,
        ),
        _ => false,
    }
}

/// Whether the event is a file whose name starts with a dot.
pub open spec fn dot_file(event: SortEvent) -> bool {
    match event_name(event) {
        Some(n) => is_dot_name(n),
        None => false,
    }
}

/// Whether the event is a file with a name that does not start with a dot.
pub open spec fn visible_file(event: SortEvent) -> bool {
    match event_name(event) {
        Some(n) => !is_dot_name(n),
        None => false,
    }
}

/// The classification pair of an `Ok` outcome.
pub open spec fn outcome_pair(o: Result<(Seq<char>, Seq<char>), Seq<char>>) -> (Seq<char>, Seq<char>) {
    match o {
        Ok(v) => v,
        Err(_) => (Seq::empty(), Seq::empty()),
    }
}

/// The destination of a successful move.
pub open spec fn moved_to(event: SortEvent) -> Option<Seq<char>> {
    match event {
        SortEvent::MoveFinished(Ok(d)) => Some(d@),
        _ => None,
    }
}

/// The answer of a `CandidateChecked` event.
pub open spec fn checked_exists(event: SortEvent) -> bool {
    match event {
        SortEvent::CandidateChecked(b) => b,
        _ => false,
    }
}

/// Whether the event carries a modification time.
pub open spec fn modified_known(event: SortEvent) -> bool {
    event matches SortEvent::ModifiedRead(Some(_))
}

/// Whether the event is a move that was skipped.
pub open spec fn move_skipped(event: SortEvent) -> bool {
    event matches SortEvent::MoveFinished(Err(SortcrabError::Skipped(_)))
}

/// Whether the event is a move that failed otherwise.
pub open spec fn move_failed(event: SortEvent) -> bool {
    match event {
        SortEvent::MoveFinished(Err(e)) => !(e is Skipped),
        _ => false,
    }
}

/// Whether the action is `CheckSymlink` for `path`.
pub open spec fn asks_symlink(a: SortAction, path: Seq<char>) -> bool {
    match a {
        SortAction::CheckSymlink { path: p } => p@ == path,
        _ => false,
    }
}

/// Whether the action is `ReadModified` for `path`.
pub open spec fn asks_modified(a: SortAction, path: Seq<char>) -> bool {
    match a {
        SortAction::ReadModified { path: p } => p@ == path,
        _ => false,
    }
}

/// Whether the action is `Canonicalize` for `path` and `dest_dir`.
pub open spec fn asks_canonical(a: SortAction, path: Seq<char>, dest_dir: Seq<char>) -> bool {
    match a {
        SortAction::Canonicalize { path: p, dest_dir: d } => p@ == path && d@ == dest_dir,
        _ => false,
    }
}

/// Whether the action is `CheckCandidate` for `candidate`.
pub open spec fn asks_candidate(a: SortAction, candidate: Seq<char>) -> bool {
    match a {
        SortAction::CheckCandidate { candidate: c } => c@ == candidate,
        _ => false,
    }
}

/// Whether the action is `MoveFile` with these options.
pub open spec fn asks_move(
    a: SortAction,
    source: Seq<char>,
    class: (Seq<char>, Seq<char>),
    semester: Seq<char>,
    filename: Seq<char>,
) -> bool {
    match a {
        SortAction::MoveFile { source: s, classification: c, semester: m, filename: f } => s@
            == source && c@ == class && m@ == semester && f@ == filename,
        _ => false,
    }
}

/// The session is done with the current file: back to `Idle`, asking for the
/// next entry, the counters moved on by the given amounts and the dry-run
/// predictions kept.
pub open spec fn finished(
    s: SortSession,
    t: SortSession,
    a: SortAction,
    total: int,
    moved: int,
    skipped: int,
    errors: int,
) -> bool {
    &&& t.stage is Idle
    &&& a is NextEntry
    &&& counted(s.report, t.report, total, moved, skipped, errors)
    &&& moved == 0 ==> t.report.moves@ == s.report.moves@
    &&& moved == 0 ==> t.predicted@ == s.predicted@
}

/// The session goes on with the same file: the counters and the records
/// move on only by `total`, and the dry-run predictions are kept.
pub open spec fn continued(s: SortSession, t: SortSession, total: int) -> bool {
    &&& counted(s.report, t.report, total, 0, 0, 0)
    &&& t.report.moves@ == s.report.moves@
    &&& t.predicted@ == s.predicted@
}

/// `dest` relative to `target`, or `dest` itself when it is not under it.
pub fn relative_to(dest: &str, target: &str) -> (r: String)
    ensures
        r@ == relative_of(dest@, target@),
{
    match path_strip_prefix(dest, target) {
        Some(rel) => rel,
        None => String::from_str(dest),
    }
}

/// Pushing an element that is not there keeps a sequence free of duplicates.
pub proof fn lemma_push_fresh_no_duplicates(s: Seq<Seq<char>>, x: Seq<char>)
    requires
        s.no_duplicates(),
        !s.contains(x),
    ensures
        s.push(x).no_duplicates(),
{
    assert forall|i: int, j: int| 0 <= i < s.push(x).len() && 0 <= j < s.push(x).len() && i != j
        implies s.push(x)[i] != s.push(x)[j] by {
        if i < s.len() && j < s.len() {
        } else if i == s.len() {
            assert(s[j] == s.push(x)[j]);
        } else {
            assert(s[i] == s.push(x)[i]);
        }
    }
}

/// Between entries, every processed file has been counted exactly once, as
/// moved, skipped or an error, and every move has its record.
pub proof fn law_report_balanced_between_entries(session: SortSession)
    requires
        session.wf(),
        session.stage is Idle,
    ensures
        session.report.moved + session.report.skipped + session.report.errors
            == session.report.total,
        session.report.moves@.len() == session.report.moved,
{
}

/// Every record of a session's report says whether the session is a dry
/// run: predictions in a dry run, actual moves otherwise.
pub proof fn law_records_match_run_kind(session: SortSession, i: int)
    requires
        session.wf(),
        0 <= i < session.report.moves@.len(),
    ensures
        session.report.moves@[i].dry_run == session.dry_run,
{
}

/// A dry run never predicts the same destination twice.
pub proof fn law_predictions_distinct(session: SortSession)
    requires
        session.wf(),
    ensures
        views(session.predicted@).no_duplicates(),
{
}

/// One sort of a directory, entry by entry.
pub struct SortSession {
    pub target: String,
    pub dry_run: bool,
    pub semester: SemesterConfig,
    pub report: SortReport,
    /// The destinations predicted so far in a dry run.
    pub predicted: Vec<String>,
    pub stage: SortStage,
    /// The counters (total, moved, skipped, errors) before the file being
    /// handled was counted.
    pub at_entry: Ghost<(usize, usize, usize, usize)>,
}

/// The counters of a report: total, moved, skipped, errors.
pub open spec fn counts(r: SortReport) -> (usize, usize, usize, usize) {
    (r.total, r.moved, r.skipped, r.errors)
}

/// One file has been dealt with since the counters were `start`: it is
/// counted once in the total and exactly once as moved, skipped or an error.
pub open spec fn one_file_done(start: (usize, usize, usize, usize), r: SortReport) -> bool {
    &&& r.total == start.0 + 1
    &&& {
        ||| (r.moved == start.1 + 1 && r.skipped == start.2 && r.errors == start.3)
        ||| (r.moved == start.1 && r.skipped == start.2 + 1 && r.errors == start.3)
        ||| (r.moved == start.1 && r.skipped == start.2 && r.errors == start.3 + 1)
    }
}

impl SortSession {
    /// The invariant of a session.
    pub open spec fn wf(&self) -> bool {
        &&& self.stage is Idle ==> self.report.balanced()
        &&& !(self.stage is Idle) ==> (self.report.total == self.report.moved
            + self.report.skipped + self.report.errors + 1 && self.report.moves@.len()
            == self.report.moved)
        &&& views(self.predicted@).no_duplicates()
        &&& forall|i: int| 0 <= i < self.report.moves@.len() ==> #[trigger] self.report.moves@[i].dry_run
            == self.dry_run
        &&& !(self.stage is Idle) ==> (self.report.total == self.at_entry@.0 + 1
            && self.report.moved == self.at_entry@.1 && self.report.skipped == self.at_entry@.2
            && self.report.errors == self.at_entry@.3)
        &&& self.stage is AwaitCandidate ==> self.dry_run
        &&& self.stage is AwaitMove ==> !self.dry_run
        &&& (self.stage matches SortStage::AwaitCandidate { dest_dir, name, counter, candidate }
            ==> candidate@ == candidate_of(dest_dir@, name@, counter as nat))
    }

    /// Whether the answer `event` makes the current candidate taken: it
    /// exists, or an earlier file of this dry run was predicted there.
    pub open spec fn candidate_taken(&self, event: SortEvent) -> bool {
        &&& self.stage is AwaitCandidate
        &&& event is CandidateChecked
        &&& (checked_exists(event) || views(self.predicted@).contains(stage_candidate(self.stage)))
    }

    /// The counter of the candidate being tried (0 outside a dry-run search).
    pub open spec fn candidate_counter(&self) -> u64 {
        match self.stage {
            SortStage::AwaitCandidate { counter, .. } => counter,
            _ => 0,
        }
    }

    /// A session that sorts into `target`.
    pub fn new(target: &str, dry_run: bool, semester: &SemesterConfig) -> (r: SortSession)
        ensures
            r.wf(),
            r.stage is Idle,
            r.target@ == target@,
            r.dry_run == dry_run,
            r.semester.enabled == semester.enabled,
            r.semester.months_per_period == semester.months_per_period,
            r.semester.folder_format@ == semester.folder_format@,
            r.report.total == 0 && r.report.moved == 0 && r.report.skipped == 0 && r.report.errors
                == 0,
            r.report.moves@.len() == 0,
            r.predicted@.len() == 0,
    {
        let r = SortSession {
            target: String::from_str(target),
            dry_run,
            semester: semester.duplicate(),
            report: SortReport::new(),
            predicted: Vec::new(),
            stage: SortStage::Idle,
            at_entry: Ghost((0, 0, 0, 0)),
        };
        assert(views(r.predicted@) =~= Seq::<Seq<char>>::empty());
        r
    }

    /// A session for sorting the directory `source` into `target`, or
    /// `InvalidPath` with `source` when it is not a directory.
    pub fn open(
        source: std::path::PathBuf,
        source_is_dir: bool,
        target: &str,
        dry_run: bool,
        semester: &SemesterConfig,
    ) -> (r: Result<SortSession, SortcrabError>)
        ensures
            source_is_dir <==> r is Ok,
            r matches Err(e) ==> e == SortcrabError::InvalidPath(source),
            r matches Ok(s) ==> s.wf() && s.stage is Idle && s.target@ == target@ && s.dry_run
                == dry_run && s.semester.enabled == semester.enabled
                && s.semester.months_per_period == semester.months_per_period
                && s.semester.folder_format@ == semester.folder_format@ && s.report.total == 0
                && s.report.moved == 0 && s.report.skipped == 0 && s.report.errors == 0
                && s.report.moves@.len() == 0 && s.predicted@.len() == 0,
    {
        if !source_is_dir {
            return Err(SortcrabError::InvalidPath(source));
        }
        Ok(SortSession::new(target, dry_run, semester))
    }

    /// Take the answer about the current entry and say what to do next.
    pub fn step(&mut self, rules: &RulesConfig, event: SortEvent) -> (r: SortAction)
        requires
            old(self).wf(),
            sort_event_fits(old(self).stage, event),
            old(self).stage is Idle ==> old(self).report.total < usize::MAX,
            (old(self).stage is AwaitModified && modified_known(event) && old(self).semester.enabled)
                ==> old(self).semester.months_per_period > 0,
            old(self).candidate_taken(event) ==> old(self).candidate_counter() < u64::MAX,
        ensures
            final(self).wf(),
            final(self).target == old(self).target,
            final(self).dry_run == old(self).dry_run,
            final(self).semester == old(self).semester,
            // a file is counted once, and ends counted once as moved, skipped or an error
            (old(self).stage is Idle && !(final(self).stage is Idle)) ==> final(self).at_entry@
                == counts(old(self).report),
            (old(self).stage is Idle && final(self).stage is Idle && !(event is Directory))
                ==> one_file_done(counts(old(self).report), final(self).report),
            (!(old(self).stage is Idle) && final(self).stage is Idle) ==> one_file_done(
                old(self).at_entry@,
                final(self).report,
            ),
            // an entry that could not be read
            (old(self).stage is Idle && event is EntryFailed) ==> finished(
                *old(self),
                *final(self),
                r,
                1,
                0,
                0,
                1,
            ),
            // a directory: not counted
            (old(self).stage is Idle && event is Directory) ==> finished(
                *old(self),
                *final(self),
                r,
                0,
                0,
                0,
                0,
            ),
            // a file without a name as text
            (old(self).stage is Idle && event is File && event_name(event) is None) ==> finished(
                *old(self),
                *final(self),
                r,
                1,
                0,
                0,
                1,
            ),
            // a dotfile
            (old(self).stage is Idle && dot_file(event))
                ==> finished(*old(self), *final(self), r, 1, 0, 1, 0),
            // a visible file: is it a symlink? (asked before anything else)
            (old(self).stage is Idle && visible_file(event)) ==> (final(self).stage is AwaitSymlink
                && stage_path(final(self).stage) == event_path(event) && stage_name(
                final(self).stage,
            ) == event_name(event).unwrap() && asks_symlink(r, event_path(event)) && continued(
                *old(self),
                *final(self),
                1,
            )),
            // symlinks are skipped, whatever their extension
            (old(self).stage is AwaitSymlink && event == SortEvent::SymlinkChecked(true))
                ==> finished(*old(self), *final(self), r, 0, 0, 1, 0),
            // not a symlink: a file whose extension has no rule is an error
            (old(self).stage is AwaitSymlink && event == SortEvent::SymlinkChecked(false)
                && key_outcome(rules@, lookup_text(stage_path(old(self).stage))) is Err)
                ==> finished(*old(self), *final(self), r, 0, 0, 0, 1),
            // not a symlink, classified: read its modification time
            (old(self).stage is AwaitSymlink && event == SortEvent::SymlinkChecked(false)
                && key_outcome(rules@, lookup_text(stage_path(old(self).stage))) is Ok) ==> (
            final(self).stage is AwaitModified && stage_path(final(self).stage) == stage_path(
                old(self).stage,
            ) && stage_name(final(self).stage) == stage_name(old(self).stage) && stage_class(
                final(self).stage,
            ) == outcome_pair(key_outcome(rules@, lookup_text(stage_path(old(self).stage))))
                && asks_modified(r, stage_path(old(self).stage)) && continued(
                *old(self),
                *final(self),
                0,
            )),
            // the modification time
            (old(self).stage is AwaitModified && event == SortEvent::ModifiedRead(None))
                ==> finished(*old(self), *final(self), r, 0, 0, 0, 1),
            (old(self).stage is AwaitModified && modified_known(event))
                ==> (final(self).stage is AwaitOrganised && stage_path(final(self).stage)
                == stage_path(old(self).stage) && stage_name(final(self).stage) == stage_name(
                old(self).stage,
            ) && stage_class(final(self).stage) == stage_class(old(self).stage)
                && semester_folder(old(self).semester, stage_semester(final(self).stage))
                && stage_dest_dir(final(self).stage) == dest_dir_of(
                old(self).target@,
                stage_class(old(self).stage),
                stage_semester(final(self).stage),
            ) && asks_canonical(r, stage_path(old(self).stage), stage_dest_dir(final(self).stage))
                && continued(*old(self), *final(self), 0)),
            // a file already in its destination directory is skipped
            (old(self).stage is AwaitOrganised && organised_already(event)) ==> finished(
                *old(self),
                *final(self),
                r,
                0,
                0,
                1,
                0,
            ),
            // a dry run tries names in the destination directory
            (old(self).stage is AwaitOrganised && event is Canonicalized && !organised_already(
                event,
            ) && old(self).dry_run) ==> (final(self).stage is AwaitCandidate && stage_dest_dir(
                final(self).stage,
            ) == stage_dest_dir(old(self).stage) && stage_name(final(self).stage) == stage_name(
                old(self).stage,
            ) && final(self).candidate_counter() == 0 && asks_candidate(
                r,
                candidate_of(stage_dest_dir(old(self).stage), stage_name(old(self).stage), 0),
            ) && continued(*old(self), *final(self), 0)),
            // a real run moves the file
            (old(self).stage is AwaitOrganised && event is Canonicalized && !organised_already(
                event,
            ) && !old(self).dry_run) ==> (final(self).stage is AwaitMove && asks_move(
                r,
                stage_path(old(self).stage),
                stage_class(old(self).stage),
                stage_semester(old(self).stage),
                stage_name(old(self).stage),
            ) && continued(*old(self), *final(self), 0)),
            // a taken name: try the next one
            (old(self).stage is AwaitCandidate && old(self).candidate_taken(event)) ==> (final(self).stage is AwaitCandidate && stage_dest_dir(final(self).stage) == stage_dest_dir(
                old(self).stage,
            ) && stage_name(final(self).stage) == stage_name(old(self).stage)
                && final(self).candidate_counter() == old(self).candidate_counter() + 1
                && asks_candidate(
                r,
                candidate_of(
                    stage_dest_dir(old(self).stage),
                    stage_name(old(self).stage),
                    final(self).candidate_counter() as nat,
                ),
            ) && continued(*old(self), *final(self), 0)),
            // a free name: predicted and recorded
            (old(self).stage is AwaitCandidate && event is CandidateChecked && !old(self).candidate_taken(event)) ==> (finished(*old(self), *final(self), r, 0, 1, 0, 0)
                && views(final(self).predicted@) == views(old(self).predicted@).push(
                stage_candidate(old(self).stage),
            ) && record_pushed(
                old(self).report.moves@,
                final(self).report.moves@,
                relative_of(stage_candidate(old(self).stage), old(self).target@),
                true,
            )),
            // the outcome of a move
            (old(self).stage is AwaitMove && moved_to(event) is Some) ==> (
            finished(*old(self), *final(self), r, 0, 1, 0, 0) && final(self).predicted@ == old(self).predicted@ && record_pushed(
                old(self).report.moves@,
                final(self).report.moves@,
                relative_of(moved_to(event).unwrap(), old(self).target@),
                false,
            )),
            (old(self).stage is AwaitMove && move_skipped(event)) ==> finished(*old(self), *final(self), r, 0, 0, 1, 0),
            (old(self).stage is AwaitMove && move_failed(event)) ==> finished(*old(self), *final(self), r, 0, 0, 0, 1),
    {
        let mut stage = SortStage::Idle;
        std::mem::swap(&mut stage, &mut self.stage);
        match stage {
            SortStage::Idle => self.on_entry(rules, event),
            SortStage::AwaitSymlink { path, name } => {
                match event {
                    SortEvent::SymlinkChecked(true) => {
                        self.report.skipped = self.report.skipped + 1;
                        SortAction::NextEntry
                    },
                    _ => match classify_file(rules, path.as_str()) {
                        Err(_) => {
                            self.report.errors = self.report.errors + 1;
                            SortAction::NextEntry
                        },
                        Ok(class) => {
                            let action = SortAction::ReadModified { path: path.clone() };
                            self.stage = SortStage::AwaitModified { path, name, class };
                            action
                        },
                    },
                }
            },
            SortStage::AwaitModified { path, name, class } => {
                match event {
                    SortEvent::ModifiedRead(Some(t)) => {
                        let semester = if self.semester.enabled {
                            semester_label(
                                &t,
                                self.semester.months_per_period,
                                self.semester.folder_format.as_str(),
                            )
                        } else {
                            String::new()
                        };
                        let dir = dest_dir(self.target.as_str(), &class, semester.as_str());
                        let action = SortAction::Canonicalize { path: path.clone(), dest_dir: dir.clone() };
                        self.stage = SortStage::AwaitOrganised { path, name, class, semester, dest_dir: dir };
                        action
                    },
                    _ => {
                        self.report.errors = self.report.errors + 1;
                        SortAction::NextEntry
                    },
                }
            },
            SortStage::AwaitOrganised { path, name, class, semester, dest_dir } => {
                let inside = match event {
                    SortEvent::Canonicalized { source: Some(s), dest_dir: Some(d) } => path_starts_with(
                        s.as_str(),
                        d.as_str(),
                    ),
                    _ => false,
                };
                if inside {
                    self.report.skipped = self.report.skipped + 1;
                    SortAction::NextEntry
                } else if self.dry_run {
                    let candidate = collision_candidate(dest_dir.as_str(), name.as_str(), 0);
                    let action = SortAction::CheckCandidate { candidate: candidate.clone() };
                    self.stage = SortStage::AwaitCandidate { dest_dir, name, counter: 0, candidate };
                    action
                } else {
                    self.stage = SortStage::AwaitMove;
                    SortAction::MoveFile { source: path, classification: class, semester, filename: name }
                }
            },
            SortStage::AwaitCandidate { dest_dir, name, counter, candidate } => {
                let on_disk = match event {
                    SortEvent::CandidateChecked(b) => b,
                    _ => false,
                };
                let taken = on_disk || self.is_predicted(candidate.as_str());
                assert(stage == old(self).stage);
                assert(taken == old(self).candidate_taken(event));
                if taken {
                    let next = counter + 1;
                    let c = collision_candidate(dest_dir.as_str(), name.as_str(), next);
                    let action = SortAction::CheckCandidate { candidate: c.clone() };
                    self.stage = SortStage::AwaitCandidate { dest_dir, name, counter: next, candidate: c };
                    action
                } else {
                    let rel = relative_to(candidate.as_str(), self.target.as_str());
                    let ghost before = views(self.predicted@);
                    self.predicted.push(candidate);
                    proof {
                        assert(views(self.predicted@) =~= before.push(stage_candidate(stage)));
                        lemma_push_fresh_no_duplicates(before, stage_candidate(stage));
                    }
                    self.report.moves.push(MoveRecord { dest_relative: rel, dry_run: true });
                    self.report.moved = self.report.moved + 1;
                    proof {
                        assert(self.report.moves@.take(old(self).report.moves@.len() as int)
                            =~= old(self).report.moves@);
                        assert(rel@ == relative_of(stage_candidate(old(self).stage), old(self).target@));
                        assert(record_pushed(
                            old(self).report.moves@,
                            self.report.moves@,
                            relative_of(stage_candidate(old(self).stage), old(self).target@),
                            true,
                        ));
                        assert(counted(old(self).report, self.report, 0, 1, 0, 0));
                        assert(views(self.predicted@) == views(old(self).predicted@).push(
                            stage_candidate(old(self).stage),
                        ));
                    }
                    SortAction::NextEntry
                }
            },
            SortStage::AwaitMove => {
                match event {
                    SortEvent::MoveFinished(Ok(d)) => {
                        let rel = relative_to(d.as_str(), self.target.as_str());
                        self.report.moves.push(MoveRecord { dest_relative: rel, dry_run: false });
                        self.report.moved = self.report.moved + 1;
                        proof {
                            assert(self.report.moves@.take(old(self).report.moves@.len() as int)
                                =~= old(self).report.moves@);
                        }
                        SortAction::NextEntry
                    },
                    SortEvent::MoveFinished(Err(e)) => {
                        if e.is_skipped() {
                            self.report.skipped = self.report.skipped + 1;
                        } else {
                            self.report.errors = self.report.errors + 1;
                        }
                        SortAction::NextEntry
                    },
                    _ => SortAction::NextEntry,
                }
            },
        }
    }

    /// The answer about a new directory entry.
    fn on_entry(&mut self, rules: &RulesConfig, event: SortEvent) -> (r: SortAction)
        requires
            old(self).stage is Idle,
            old(self).wf(),
            old(self).report.total < usize::MAX,
            event is EntryFailed || event is Directory || event is File,
        ensures
            final(self).wf(),
            final(self).target == old(self).target,
            final(self).dry_run == old(self).dry_run,
            final(self).semester == old(self).semester,
            !(final(self).stage is Idle) ==> final(self).at_entry@ == counts(old(self).report),
            event is EntryFailed ==> finished(*old(self), *final(self), r, 1, 0, 0, 1),
            event is Directory ==> finished(*old(self), *final(self), r, 0, 0, 0, 0),
            (event is File && event_name(event) is None) ==> finished(
                *old(self),
                *final(self),
                r,
                1,
                0,
                0,
                1,
            ),
            (dot_file(event)) ==> finished(
                *old(self),
                *final(self),
                r,
                1,
                0,
                1,
                0,
            ),
            visible_file(event) ==> (final(self).stage is AwaitSymlink && stage_path(
                final(self).stage,
            ) == event_path(event) && stage_name(final(self).stage) == event_name(event).unwrap()
                && asks_symlink(r, event_path(event)) && continued(*old(self), *final(self), 1)),
    {
        match event {
            SortEvent::EntryFailed => {
                self.report.errors = self.report.errors + 1;
                self.report.total = self.report.total + 1;
                SortAction::NextEntry
            },
            SortEvent::File { path, name } => {
                let ghost start = counts(self.report);
                self.report.total = self.report.total + 1;
                match name {
                    None => {
                        self.report.errors = self.report.errors + 1;
                        SortAction::NextEntry
                    },
                    Some(n) => {
                        if starts_with_char(n.as_str(), '.') {
                            self.report.skipped = self.report.skipped + 1;
                            return SortAction::NextEntry;
                        }
                        self.at_entry = Ghost(start);
                        let action = SortAction::CheckSymlink { path: path.clone() };
                        self.stage = SortStage::AwaitSymlink { path, name: n };
                        action
                    },
                }
            },
            _ => SortAction::NextEntry,
        }
    }

    /// Whether `candidate` was predicted earlier in this dry run.
    fn is_predicted(&self, candidate: &str) -> (r: bool)
        ensures
            r == views(self.predicted@).contains(candidate@),
    {
        let n = self.predicted.len();
        let mut i: usize = 0;
        while i < n
            invariant
                n == self.predicted@.len(),
                i <= n,
                forall|t: int| 0 <= t < i ==> views(self.predicted@)[t] != candidate@,
            decreases n - i,
        {
            if str_eq(self.predicted[i].as_str(), candidate) {
                assert(views(self.predicted@)[i as int] == candidate@);
                return true;
            }
            i = i + 1;
        }
        false
    }

    /// The report of the session.
    pub fn into_report(self) -> (r: SortReport)
        ensures
            r == self.report,
    {
        self.report
    }
}

} // verus!
