//! Moving one file to its organised destination.
//!
//! The destination is `{target}/{category}/{subcategory}/{semester}/{filename}`;
//! a taken name is replaced by `stem-1.ext`, `stem-2.ext`, ... The filesystem
//! work is done by the caller: [`MoveTask`] says what to do next and takes
//! the outcome back.

use vstd::prelude::*;
use vstd::string::*;

use crate::error::SortcrabError;
use crate::organize::paths::{
    opt_view, path_extension, path_extension_of, path_file_stem, path_file_stem_of, path_join,
    path_join_of, path_starts_with, path_starts_with_of,
};
use crate::text::{dec_nat, lemma_dec_nat_injective, starts_with_char, u64_to_decimal};

verus! {

/// A file classification result.
#[derive(Debug)]
pub struct Classification {
    pub category: String,
    pub subcategory: String,
}

impl View for Classification {
    type V = (Seq<char>, Seq<char>);

    open spec fn view(&self) -> (Seq<char>, Seq<char>) {
        (self.category@, self.subcategory@)
    }
}

impl Classification {
    /// A copy of this classification.
    pub fn duplicate(&self) -> (r: Classification)
        ensures
            r@ == self@,
    {
        Classification { category: self.category.clone(), subcategory: self.subcategory.clone() }
    }
}

/// Options for moving a file to its organised destination.
pub struct MoveOptions<'a> {
    pub source: &'a str,
    pub target: &'a str,
    pub classification: &'a Classification,
    pub semester: &'a str,
    pub filename: &'a str,
}

/// `{target}/{category}/{subcategory}/{semester}`.
pub open spec fn dest_dir_of(
    target: Seq<char>,
    class: (Seq<char>, Seq<char>),
    semester: Seq<char>,
) -> Seq<char> {
    path_join_of(path_join_of(path_join_of(target, class.0), class.1), semester)
}

/// The part of a colliding name before the counter: its stem, or the whole
/// name when it has none.
pub open spec fn stem_text(filename: Seq<char>) -> Seq<char> {
    match path_file_stem_of(filename) {
        Some(s) => s,
        None => filename,
    }
}

/// The part of a colliding name after the counter: `.ext` for a non-empty
/// extension, nothing otherwise.
pub open spec fn ext_suffix(filename: Seq<char>) -> Seq<char> {
    match path_extension_of(filename) {
        Some(e) => if e.len() > 0 {
            seq!['.'] + e
        } else {
            Seq::empty()
        },
        None => Seq::empty(),
    }
}

/// The `k`-th name tried for `filename`: the name itself, then
/// `stem-k.ext` for `k >= 1`.
pub open spec fn collision_name(filename: Seq<char>, k: nat) -> Seq<char> {
    if k == 0 {
        filename
    } else {
        stem_text(filename) + seq!['-'] + dec_nat(k) + ext_suffix(filename)
    }
}

/// The `k`-th destination tried for `filename` in `dest_dir`.
pub open spec fn candidate_of(dest_dir: Seq<char>, filename: Seq<char>, k: nat) -> Seq<char> {
    path_join_of(dest_dir, collision_name(filename, k))
}

/// The names tried after the first one never repeat: `stem-i.ext` and
/// `stem-j.ext` differ whenever `i` and `j` do.
pub proof fn law_collision_names_distinct(filename: Seq<char>, i: nat, j: nat)
    requires
        1 <= i,
        1 <= j,
        i != j,
    ensures
        collision_name(filename, i) != collision_name(filename, j),
{
    let a = stem_text(filename) + seq!['-'];
    let e = ext_suffix(filename);
    let di = dec_nat(i);
    let dj = dec_nat(j);
    assert(collision_name(filename, i) =~= a + di + e);
    assert(collision_name(filename, j) =~= a + dj + e);
    if collision_name(filename, i) == collision_name(filename, j) {
        let ni = a + di + e;
        let nj = a + dj + e;
        assert(di.len() == dj.len());
        assert(ni.subrange(a.len() as int, (a.len() + di.len()) as int) =~= di);
        assert(nj.subrange(a.len() as int, (a.len() + dj.len()) as int) =~= dj);
        lemma_dec_nat_injective(i, j);
    }
}

/// The directory a classified file goes to.
pub fn dest_dir(target: &str, class: &Classification, semester: &str) -> (r: String)
    ensures
        r@ == dest_dir_of(target@, class@, semester@),
{
    let a = path_join(target, class.category.as_str());
    let b = path_join(a.as_str(), class.subcategory.as_str());
    path_join(b.as_str(), semester)
}

/// The `counter`-th name tried for `filename` (see [`collision_name`]).
pub fn collision_file_name(filename: &str, counter: u64) -> (r: String)
    ensures
        r@ == collision_name(filename@, counter as nat),
{
    if counter == 0 {
        return String::from_str(filename);
    }
    let stem = path_file_stem(filename);
    let ext = path_extension(filename);
    let mut out = match stem {
        Some(s) => s,
        None => String::from_str(filename),
    };
    proof {
        reveal_strlit("-");
        reveal_strlit(".");
    }
    out.append("-");
    let digits = u64_to_decimal(counter);
    out.append(digits.as_str());
    match ext {
        Some(e) => {
            if e.unicode_len() > 0 {
                out.append(".");
                out.append(e.as_str());
            }
        },
        None => {},
    }
    assert(out@ =~= collision_name(filename@, counter as nat));
    out
}

/// The `counter`-th destination tried for `filename` in `dest_dir`.
pub fn collision_candidate(dest_dir: &str, filename: &str, counter: u64) -> (r: String)
    ensures
        r@ == candidate_of(dest_dir@, filename@, counter as nat),
{
    let name = collision_file_name(filename, counter);
    path_join(dest_dir, name.as_str())
}

/// `io::Error::kind`, told apart: whether the kind is
/// `ErrorKind::CrossesDevices`. Nothing is stated: the error is opaque here.
#[verifier::external_body]
fn kind_is_crosses_devices(e: &std::io::Error) -> bool {
    matches!(e.kind(), std::io::ErrorKind::CrossesDevices)
}

/// `io::Error::raw_os_error`. Nothing is stated: the error is opaque here.
#[verifier::external_body]
fn raw_os_error(e: &std::io::Error) -> Option<i32> {
    e.raw_os_error()
}

/// The raw OS error of a rename across filesystems (`EXDEV` on Linux).
pub const EXDEV: i32 = 18;

/// Whether a failed rename crossed filesystems: its kind says so, or its
/// raw OS error is `EXDEV`.
pub fn crosses_devices(kind_crosses: bool, raw: Option<i32>) -> (r: bool)
    ensures
        r == (kind_crosses || raw == Some(EXDEV)),
{
    if kind_crosses {
        return true;
    }
    match raw {
        Some(code) => code == EXDEV,
        None => false,
    }
}

/// What a [`MoveTask`] waits for.
#[derive(Debug)]
pub enum MoveStage {
    AwaitSymlink,
    AwaitCanonical,
    AwaitDir,
    AwaitExists,
    AwaitRename,
    AwaitCopy,
    AwaitRemove,
    Finished,
}

/// The next thing a [`MoveTask`] asks of the filesystem, or its result.
#[derive(Debug)]
pub enum MoveStep {
    /// Is `source` itself a symbolic link (`fs::symlink_metadata`)?
    CheckSymlink { source: String },
    /// Canonicalise `source` and `dest_dir` (`fs::canonicalize`); each may fail.
    Canonicalize { source: String, dest_dir: String },
    /// Create `dest_dir` and its parents (`fs::create_dir_all`).
    CreateDir { dest_dir: String },
    /// Does `candidate` exist?
    CheckExists { candidate: String },
    /// Rename `source` to `dest`.
    Rename { source: String, dest: String },
    /// Copy `source` to `dest` (after a rename across filesystems).
    Copy { source: String, dest: String },
    /// Remove `source` (after the copy).
    RemoveSource { source: String },
    /// The move is over: the destination, or why there is none.
    Done(Result<String, SortcrabError>),
}

/// A failed rename: the error, and whether it says that the rename crossed
/// filesystems (then the file is copied and the source removed instead).
#[derive(Debug)]
pub struct RenameError {
    pub error: std::io::Error,
    pub crosses_devices: bool,
}

impl RenameError {
    /// The failure of a rename with `error`, whose kind is or is not
    /// `CrossesDevices` (`kind_crosses`) and whose raw OS error is `raw`.
    pub fn classified(error: std::io::Error, kind_crosses: bool, raw: Option<i32>) -> (r:
        RenameError)
        ensures
            r.error == error,
            r.crosses_devices == (kind_crosses || raw == Some(EXDEV)),
    {
        let crosses_devices = crosses_devices(kind_crosses, raw);
        RenameError { error, crosses_devices }
    }

    /// The failure of a rename with `error`, classified by the error's kind
    /// and raw OS error (see [`RenameError::classified`]).
    pub fn new(error: std::io::Error) -> (r: RenameError)
        ensures
            r.error == error,
    {
        let kind_crosses = kind_is_crosses_devices(&error);
        let raw = raw_os_error(&error);
        Self::classified(error, kind_crosses, raw)
    }
}

/// What the filesystem answered to a [`MoveStep`].
#[derive(Debug)]
pub enum MoveEvent {
    SymlinkChecked(Result<bool, std::io::Error>),
    Canonicalized { source: Option<String>, dest_dir: Option<String> },
    DirCreated(Result<(), std::io::Error>),
    ExistsChecked(bool),
    Renamed(Result<(), RenameError>),
    Copied(Result<(), std::io::Error>),
    Removed(Result<(), std::io::Error>),
}

/// Whether the event is a rename that failed because it crossed filesystems.
pub open spec fn rename_crossed(event: MoveEvent) -> bool {
    event matches MoveEvent::Renamed(Err(f)) && f.crosses_devices
}

/// Whether the event is a rename that failed for another reason.
pub open spec fn rename_failed_otherwise(event: MoveEvent) -> bool {
    event matches MoveEvent::Renamed(Err(f)) && !f.crosses_devices
}

/// Whether `event` answers what a task in `stage` waits for.
pub open spec fn event_fits(stage: MoveStage, event: MoveEvent) -> bool {
    match (stage, event) {
        (MoveStage::AwaitSymlink, MoveEvent::SymlinkChecked(_)) => true,
        (MoveStage::AwaitCanonical, MoveEvent::Canonicalized { .. }) => true,
        (MoveStage::AwaitDir, MoveEvent::DirCreated(_)) => true,
        (MoveStage::AwaitExists, MoveEvent::ExistsChecked(_)) => true,
        (MoveStage::AwaitRename, MoveEvent::Renamed(_)) => true,
        (MoveStage::AwaitCopy, MoveEvent::Copied(_)) => true,
        (MoveStage::AwaitRemove, MoveEvent::Removed(_)) => true,
        _ => false,
    }
}

/// Whether a step is `Done` with an `Io` error.
pub open spec fn done_io(step: MoveStep) -> bool {
    step matches MoveStep::Done(Err(SortcrabError::Io(_)))
}

/// Whether a step is `Done` with the destination `dest`.
pub open spec fn done_ok(step: MoveStep, dest: Seq<char>) -> bool {
    step matches MoveStep::Done(Ok(d)) && d@ == dest
}

/// Whether a step is `Done` with `Skipped(prefix + name)`.
pub open spec fn done_skipped(step: MoveStep, prefix: Seq<char>, name: Seq<char>) -> bool {
    step matches MoveStep::Done(Err(SortcrabError::Skipped(m))) && m@ == prefix + name
}

/// Whether both canonical paths are known and the source lies inside the
/// destination directory.
pub open spec fn canonical_inside(event: MoveEvent) -> bool {
    match event {
        MoveEvent::Canonicalized { source: Some(s), dest_dir: Some(d) } => path_starts_with_of(
            s@,
            d@,
        ),
        _ => false,
    }
}

/// The canonical source of a `Canonicalized` event, when there is one.
pub open spec fn canonical_source(event: MoveEvent) -> Seq<char> {
    match event {
        MoveEvent::Canonicalized { source: Some(s), .. } => s@,
        _ => Seq::empty(),
    }
}

/// Whether the step asks to canonicalise `source` and `dest_dir`.
pub open spec fn asks_canonicalize(step: MoveStep, source: Seq<char>, dest_dir: Seq<char>) -> bool {
    match step {
        MoveStep::Canonicalize { source: s, dest_dir: d } => s@ == source && d@ == dest_dir,
        _ => false,
    }
}

/// Whether the step asks to create `dest_dir`.
pub open spec fn asks_create_dir(step: MoveStep, dest_dir: Seq<char>) -> bool {
    match step {
        MoveStep::CreateDir { dest_dir: d } => d@ == dest_dir,
        _ => false,
    }
}

/// Whether the step asks whether `candidate` exists.
pub open spec fn asks_exists(step: MoveStep, candidate: Seq<char>) -> bool {
    match step {
        MoveStep::CheckExists { candidate: c } => c@ == candidate,
        _ => false,
    }
}

/// Whether the step asks to rename `source` to `dest`.
pub open spec fn asks_rename(step: MoveStep, source: Seq<char>, dest: Seq<char>) -> bool {
    match step {
        MoveStep::Rename { source: s, dest: d } => s@ == source && d@ == dest,
        _ => false,
    }
}

/// Whether the step asks to copy `source` to `dest`.
pub open spec fn asks_copy(step: MoveStep, source: Seq<char>, dest: Seq<char>) -> bool {
    match step {
        MoveStep::Copy { source: s, dest: d } => s@ == source && d@ == dest,
        _ => false,
    }
}

/// Whether the step asks to remove `source`.
pub open spec fn asks_remove(step: MoveStep, source: Seq<char>) -> bool {
    match step {
        MoveStep::RemoveSource { source: s } => s@ == source,
        _ => false,
    }
}

/// Whether the step asks whether `source` is a symbolic link.
pub open spec fn asks_symlink(step: MoveStep, source: Seq<char>) -> bool {
    match step {
        MoveStep::CheckSymlink { source: s } => s@ == source,
        _ => false,
    }
}

/// One file being moved.
#[derive(Debug)]
pub struct MoveTask {
    pub source: String,
    pub filename: String,
    pub dest_dir: String,
    pub counter: u64,
    pub candidate: String,
    pub stage: MoveStage,
}

impl MoveTask {
    /// The invariant: while names are being tried, `candidate` is the
    /// `counter`-th one.
    pub open spec fn wf(&self) -> bool {
        (self.stage is AwaitExists || self.stage is AwaitRename || self.stage is AwaitCopy
            || self.stage is AwaitRemove) ==> self.candidate@ == candidate_of(
            self.dest_dir@,
            self.filename@,
            self.counter as nat,
        )
    }

    /// Start moving `opts.source`. Dotfiles are refused at once; otherwise
    /// the task first asks whether the source is a symbolic link.
    pub fn start(opts: &MoveOptions) -> (r: (MoveTask, MoveStep))
        ensures
            r.0.wf(),
            r.0.source@ == opts.source@,
            r.0.filename@ == opts.filename@,
            r.0.dest_dir@ == dest_dir_of(opts.target@, opts.classification@, opts.semester@),
            (opts.filename@.len() > 0 && opts.filename@[0] == '.') ==> (r.0.stage is Finished
                && done_skipped(r.1, "dotfile: "@, opts.filename@)),
            !(opts.filename@.len() > 0 && opts.filename@[0] == '.') ==> (r.0.stage is AwaitSymlink
                && asks_symlink(r.1, opts.source@)),
    {
        let dir = dest_dir(opts.target, opts.classification, opts.semester);
        let mut task = MoveTask {
            source: String::from_str(opts.source),
            filename: String::from_str(opts.filename),
            dest_dir: dir,
            counter: 0,
            candidate: String::new(),
            stage: MoveStage::AwaitSymlink,
        };
        if starts_with_char(opts.filename, '.') {
            task.stage = MoveStage::Finished;
            let mut msg = String::new();
            msg.append("dotfile: ");
            msg.append(opts.filename);
            return (task, MoveStep::Done(Err(SortcrabError::Skipped(msg))));
        }
        let step = MoveStep::CheckSymlink { source: String::from_str(opts.source) };
        (task, step)
    }

    /// Take the answer to the last step and say what to do next.
    pub fn step(&mut self, event: MoveEvent) -> (r: MoveStep)
        requires
            old(self).wf(),
            event_fits(old(self).stage, event),
            old(self).stage is AwaitExists && event == MoveEvent::ExistsChecked(true) ==> old(
                self,
            ).counter < u64::MAX,
        ensures
            final(self).wf(),
            final(self).source == old(self).source,
            final(self).filename == old(self).filename,
            final(self).dest_dir == old(self).dest_dir,
            // the symlink check
            event matches MoveEvent::SymlinkChecked(Err(_)) ==> (final(self).stage is Finished
                && done_io(r)),
            event == MoveEvent::SymlinkChecked(Ok(true)) ==> (final(self).stage is Finished
                && done_skipped(r, "symlink: "@, old(self).filename@)),
            event == MoveEvent::SymlinkChecked(Ok(false)) ==> (final(self).stage is AwaitCanonical
                && asks_canonicalize(r, old(self).source@, old(self).dest_dir@)),
            // a source already inside its destination directory stays where it is
            canonical_inside(event) ==> (final(self).stage is Finished && done_ok(
                r,
                canonical_source(event),
            )),
            (event is Canonicalized && !canonical_inside(event)) ==> (final(self).stage is AwaitDir
                && asks_create_dir(r, old(self).dest_dir@)),
            // the destination directory
            event matches MoveEvent::DirCreated(Err(_)) ==> (final(self).stage is Finished
                && done_io(r)),
            event matches MoveEvent::DirCreated(Ok(_)) ==> (final(self).stage is AwaitExists
                && final(self).counter == 0 && asks_exists(
                r,
                candidate_of(old(self).dest_dir@, old(self).filename@, 0),
            )),
            // the first free name
            event == MoveEvent::ExistsChecked(true) ==> (final(self).stage is AwaitExists
                && final(self).counter == old(self).counter + 1 && asks_exists(
                r,
                candidate_of(old(self).dest_dir@, old(self).filename@, final(self).counter as nat),
            )),
            event == MoveEvent::ExistsChecked(false) ==> (final(self).stage is AwaitRename
                && final(self).counter == old(self).counter && asks_rename(
                r,
                old(self).source@,
                old(self).candidate@,
            )),
            // the move itself
            event matches MoveEvent::Renamed(Ok(_)) ==> (final(self).stage is Finished && done_ok(
                r,
                old(self).candidate@,
            )),
            // a rename across filesystems falls back to copy and remove
            rename_crossed(event) ==> (final(self).stage is AwaitCopy && final(self).counter == old(self).counter
                && asks_copy(r, old(self).source@, old(self).candidate@)),
            rename_failed_otherwise(event) ==> (final(self).stage is Finished && done_io(r)),
            event matches MoveEvent::Copied(Err(_)) ==> (final(self).stage is Finished && done_io(
                r,
            )),
            event matches MoveEvent::Copied(Ok(_)) ==> (final(self).stage is AwaitRemove
                && final(self).counter == old(self).counter && asks_remove(r, old(self).source@)),
            event matches MoveEvent::Removed(Err(_)) ==> (final(self).stage is Finished && done_io(
                r,
            )),
            event matches MoveEvent::Removed(Ok(_)) ==> (final(self).stage is Finished && done_ok(
                r,
                old(self).candidate@,
            )),
    {
        match event {
            MoveEvent::SymlinkChecked(Err(e)) => {
                self.stage = MoveStage::Finished;
                MoveStep::Done(Err(SortcrabError::Io(e)))
            },
            MoveEvent::SymlinkChecked(Ok(true)) => {
                self.stage = MoveStage::Finished;
                let mut msg = String::new();
                msg.append("symlink: ");
                msg.append(self.filename.as_str());
                MoveStep::Done(Err(SortcrabError::Skipped(msg)))
            },
            MoveEvent::SymlinkChecked(Ok(false)) => {
                self.stage = MoveStage::AwaitCanonical;
                MoveStep::Canonicalize { source: self.source.clone(), dest_dir: self.dest_dir.clone() }
            },
            MoveEvent::Canonicalized { source, dest_dir } => {
                match (source, dest_dir) {
                    (Some(s), Some(d)) => {
                        if path_starts_with(s.as_str(), d.as_str()) {
                            self.stage = MoveStage::Finished;
                            return MoveStep::Done(Ok(s));
                        }
                    },
                    _ => {},
                }
                self.stage = MoveStage::AwaitDir;
                MoveStep::CreateDir { dest_dir: self.dest_dir.clone() }
            },
            MoveEvent::DirCreated(Err(e)) => {
                self.stage = MoveStage::Finished;
                MoveStep::Done(Err(SortcrabError::Io(e)))
            },
            MoveEvent::DirCreated(Ok(_)) => {
                self.counter = 0;
                self.candidate = collision_candidate(self.dest_dir.as_str(), self.filename.as_str(), 0);
                self.stage = MoveStage::AwaitExists;
                MoveStep::CheckExists { candidate: self.candidate.clone() }
            },
            MoveEvent::ExistsChecked(true) => {
                self.counter = self.counter + 1;
                self.candidate = collision_candidate(
                    self.dest_dir.as_str(),
                    self.filename.as_str(),
                    self.counter,
                );
                MoveStep::CheckExists { candidate: self.candidate.clone() }
            },
            MoveEvent::ExistsChecked(false) => {
                self.stage = MoveStage::AwaitRename;
                MoveStep::Rename { source: self.source.clone(), dest: self.candidate.clone() }
            },
            MoveEvent::Renamed(Ok(_)) => {
                self.stage = MoveStage::Finished;
                MoveStep::Done(Ok(self.candidate.clone()))
            },
            MoveEvent::Renamed(Err(f)) => {
                let crosses = f.crosses_devices;
                let e = f.error;
                if crosses {
                    self.stage = MoveStage::AwaitCopy;
                    MoveStep::Copy { source: self.source.clone(), dest: self.candidate.clone() }
                } else {
                    self.stage = MoveStage::Finished;
                    MoveStep::Done(Err(SortcrabError::Io(e)))
                }
            },
            MoveEvent::Copied(Err(e)) => {
                self.stage = MoveStage::Finished;
                MoveStep::Done(Err(SortcrabError::Io(e)))
            },
            MoveEvent::Copied(Ok(_)) => {
                self.stage = MoveStage::AwaitRemove;
                MoveStep::RemoveSource { source: self.source.clone() }
            },
            MoveEvent::Removed(Err(e)) => {
                self.stage = MoveStage::Finished;
                MoveStep::Done(Err(SortcrabError::Io(e)))
            },
            MoveEvent::Removed(Ok(_)) => {
                self.stage = MoveStage::Finished;
                MoveStep::Done(Ok(self.candidate.clone()))
            },
        }
    }
}

} // verus!
