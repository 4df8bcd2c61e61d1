//! Backing up one source (`run_source_backup`): the decisions, as a state
//! machine. The caller performs each action the machine asks for (reading a
//! modification time, listing directories, copying, saving the manifest, ...)
//! and hands back what came of it; the machine decides what happens next.
//!
//! A flat source has each subdirectory backed up to `<dest>/<name>`; a source
//! kept as a directory (`keep_dir`) is backed up whole to one directory.
//! A directory whose modification time matches the manifest is skipped,
//! unless the backup is full or the directory is forced.
use vstd::prelude::*;
use crate::config::MANIFEST_FILE;
use crate::copy::{CopyOpts, CopyView};
use crate::manifest::{Manifest, render_pairs, manifest_of_text, storable_name, lemma_manifest_roundtrip};
use crate::paths::{tilde_expansion, opt_view, path_file_name, current_home, expand_tilde_with, file_name_of};
use crate::sorted_map::{lex_lt, lex_less, lemma_lex_total, lemma_lex_transitive, lemma_lex_irreflexive};
use crate::text::{
    chars_of, string_from_chars, concat, copy_range, chars_eq, starts_with, has_prefix,
    trim_start_matches, trim_start_matching, string_views, lit,
};

verus! {

/// One subdirectory of a flat source: its name, its full path and its
/// modification time (0 when unknown).
#[derive(Debug, PartialEq, Eq)]
pub struct SubdirEntry {
    pub name: String,
    pub path: String,
    pub mtime: u64,
}

/// What to back up, as the command line and configuration ask.
#[derive(Debug, PartialEq, Eq)]
pub struct BackupRequest {
    /// The source directory.
    pub source: String,
    /// The destination directory.
    pub dest: String,
    /// Ignore the manifest and copy everything.
    pub full: bool,
    /// Directory names that are copied even when unchanged.
    pub force_folders: Vec<String>,
    /// Back the source up as one directory instead of per subdirectory.
    pub keep_dir: bool,
    /// For a directory source: skip it when smaller than this many GB (0: no limit).
    pub min_size_gb: u64,
    /// Subdirectory names or paths to leave out of a flat source.
    pub excludes: Vec<String>,
    /// rclone `--exclude` patterns for every copy.
    pub backup_exclude: Vec<String>,
}

/// What a backup works with: the request, the home directory it was
/// expanded against, the parallelism of the destination disk, and the
/// expanded paths.
pub struct BackupConfig {
    pub request: BackupRequest,
    pub home: Option<String>,
    pub checkers: u32,
    /// The source with `~` expanded.
    pub source_path: String,
    /// The destination with `~` expanded.
    pub dest_path: String,
    /// The manifest file with `~` expanded.
    pub manifest_path: String,
}

/// Something to tell the user.
#[derive(Debug, PartialEq, Eq)]
pub enum Notice {
    /// The directory is unchanged and skipped.
    Unchanged(String),
    /// The directory is below the size limit and skipped.
    TooSmall { name: String, min_size_gb: u64 },
    /// The directory is being copied.
    Copying(String),
    /// The flat source has no subdirectories; the whole tree is copied.
    NoSubdirectories,
    /// Every subdirectory is excluded; nothing is backed up.
    AllExcluded,
    /// An interruption was noticed; the loop stops.
    Interrupted,
    /// A copy failed because of an interruption; progress was saved.
    InterruptedSaved,
    /// Saving the manifest failed; the backup goes on.
    SaveWarning(String),
    /// An excluded directory is being removed from the destination.
    Pruning(String),
    /// An excluded directory was removed from the destination.
    Pruned(String),
    /// How many directories were backed up and how many skipped.
    Summary { changed: usize, skipped: usize },
}

/// A notice as plain values.
pub enum NoticeView {
    Unchanged(Seq<char>),
    TooSmall(Seq<char>, u64),
    Copying(Seq<char>),
    NoSubdirectories,
    AllExcluded,
    Interrupted,
    InterruptedSaved,
    SaveWarning(Seq<char>),
    Pruning(Seq<char>),
    Pruned(Seq<char>),
    Summary(usize, usize),
}

impl View for Notice {
    type V = NoticeView;

    open spec fn view(&self) -> NoticeView {
        match self {
            Notice::Unchanged(n) => NoticeView::Unchanged(n@),
            Notice::TooSmall { name, min_size_gb } => NoticeView::TooSmall(name@, *min_size_gb),
            Notice::Copying(n) => NoticeView::Copying(n@),
            Notice::NoSubdirectories => NoticeView::NoSubdirectories,
            Notice::AllExcluded => NoticeView::AllExcluded,
            Notice::Interrupted => NoticeView::Interrupted,
            Notice::InterruptedSaved => NoticeView::InterruptedSaved,
            Notice::SaveWarning(e) => NoticeView::SaveWarning(e@),
            Notice::Pruning(n) => NoticeView::Pruning(n@),
            Notice::Pruned(n) => NoticeView::Pruned(n@),
            Notice::Summary { changed, skipped } => NoticeView::Summary(*changed, *skipped),
        }
    }
}

/// What the caller is to do next.
#[derive(Debug, PartialEq, Eq)]
pub enum BackupAction {
    /// Read the modification time of this directory.
    ReadMtime(String),
    /// Tell whether this destination directory exists and holds any file.
    CheckDestHasFiles(String),
    /// Measure this directory and tell whether it is below `min_size_gb` GB.
    MeasureSize { path: String, min_size_gb: u64 },
    /// List the subdirectories of this directory.
    ListSubdirs(String),
    /// Tell whether the user has interrupted the backup.
    CheckInterrupted,
    /// Run this copy.
    Copy(CopyOpts),
    /// Write this text to the manifest file at this path.
    SaveManifest { path: String, contents: String },
    /// Tell whether this path exists.
    CheckExists(String),
    /// Delete the contents of this directory at the destination.
    Delete(String),
    /// The backup is over, with this outcome (the number of directories copied).
    Finish(Result<usize, String>),
}

/// An action as plain values.
pub enum ActionView {
    ReadMtime(Seq<char>),
    CheckDestHasFiles(Seq<char>),
    MeasureSize(Seq<char>, u64),
    ListSubdirs(Seq<char>),
    CheckInterrupted,
    Copy(CopyView),
    SaveManifest(Seq<char>, Seq<char>),
    CheckExists(Seq<char>),
    Delete(Seq<char>),
    Finish(Result<usize, Seq<char>>),
}

impl View for BackupAction {
    type V = ActionView;

    open spec fn view(&self) -> ActionView {
        match self {
            BackupAction::ReadMtime(p) => ActionView::ReadMtime(p@),
            BackupAction::CheckDestHasFiles(p) => ActionView::CheckDestHasFiles(p@),
            BackupAction::MeasureSize { path, min_size_gb } => ActionView::MeasureSize(
                path@,
                *min_size_gb,
            ),
            BackupAction::ListSubdirs(p) => ActionView::ListSubdirs(p@),
            BackupAction::CheckInterrupted => ActionView::CheckInterrupted,
            BackupAction::Copy(o) => ActionView::Copy(o@),
            BackupAction::SaveManifest { path, contents } => ActionView::SaveManifest(
                path@,
                contents@,
            ),
            BackupAction::CheckExists(p) => ActionView::CheckExists(p@),
            BackupAction::Delete(p) => ActionView::Delete(p@),
            BackupAction::Finish(r) => ActionView::Finish(
                match r {
                    Ok(n) => Ok(*n),
                    Err(e) => Err(e@),
                },
            ),
        }
    }
}

/// The notices to show and the action to perform.
#[derive(Debug, PartialEq, Eq)]
pub struct Step {
    pub notices: Vec<Notice>,
    pub action: BackupAction,
}

impl View for Step {
    type V = (Seq<NoticeView>, ActionView);

    open spec fn view(&self) -> (Seq<NoticeView>, ActionView) {
        (self.notices@.map_values(|n: Notice| n@), self.action@)
    }
}

/// What the caller reports back.
#[derive(Debug, PartialEq, Eq)]
pub enum BackupEvent {
    /// The modification time asked for, if it could be read.
    Mtime(Option<u64>),
    /// Whether the destination directory exists and holds a file.
    DestHasFiles(bool),
    /// Whether the directory is below the size limit.
    TooSmall(bool),
    /// The subdirectories, or why they could not be listed.
    Subdirs(Result<Vec<SubdirEntry>, String>),
    /// Whether the user has interrupted.
    Interrupted(bool),
    /// How the copy went.
    Copied(Result<(), String>),
    /// How saving the manifest went.
    Saved(Result<(), String>),
    /// Whether the path exists.
    Exists(bool),
    /// The deletion was attempted (its outcome does not matter).
    Deleted,
}

/// Where the backup stands.
#[derive(Debug, PartialEq, Eq)]
pub enum Phase {
    AwaitMtime,
    AwaitDestFiles { mtime: u64 },
    AwaitSize { mtime: u64 },
    AwaitDirCopy { mtime: u64 },
    AwaitFinalSave { result: usize },
    AwaitSubdirs,
    AwaitTreeCopy,
    AwaitInterruptCheck,
    AwaitEntryCopy,
    AwaitCopyFailCheck { error: String },
    AwaitInterruptedSave,
    AwaitEntrySave,
    AwaitLoopEndSave,
    AwaitPruneCheck,
    AwaitPruneDelete,
    Done,
}

/// The state of one source's backup.
pub struct SourceBackup {
    pub config: BackupConfig,
    pub manifest: Manifest,
    /// The destination directory's name, for a source kept as a directory.
    pub dir_name: String,
    /// The subdirectories to back up, in listing order.
    pub kept: Vec<SubdirEntry>,
    /// The names of the excluded subdirectories, in listing order.
    pub excluded: Vec<String>,
    /// How many of `kept` have been dealt with.
    pub index: usize,
    /// How many of `excluded` have been dealt with.
    pub pruned: usize,
    pub changed: usize,
    pub skipped: usize,
    pub phase: Phase,
}

/// `a/b`, as `format!("{}/{}", a, b)` writes it.
pub open spec fn slash_join(a: Seq<char>, b: Seq<char>) -> Seq<char> {
    a + seq!['/'] + b
}

/// Whether `name` is among the strings of `list`.
pub open spec fn listed(list: Seq<String>, name: Seq<char>) -> bool {
    exists|i: int| 0 <= i < list.len() && (#[trigger] list[i])@ == name
}

/// Whether a subdirectory is excluded (`is_excluded`): some exclude is its
/// name, or expands (against `home`) to its full path.
pub open spec fn excluded_by(
    excludes: Seq<String>,
    home: Option<Seq<char>>,
    name: Seq<char>,
    full_path: Seq<char>,
) -> bool {
    exists|i: int|
        0 <= i < excludes.len() && ((#[trigger] excludes[i])@ == name || tilde_expansion(
            excludes[i]@,
            home,
        ) == full_path)
}

/// Whether the entry is excluded by the configuration.
pub open spec fn entry_excluded(c: BackupConfig, e: SubdirEntry) -> bool {
    excluded_by(c.request.excludes@, opt_view(c.home), e.name@, e.path@)
}

/// The entries of `l` that are not excluded, in order.
pub open spec fn kept_entries(c: BackupConfig, l: Seq<SubdirEntry>) -> Seq<SubdirEntry>
    decreases l.len(),
{
    if l.len() == 0 {
        Seq::empty()
    } else if entry_excluded(c, l.last()) {
        kept_entries(c, l.drop_last())
    } else {
        kept_entries(c, l.drop_last()).push(l.last())
    }
}

/// The names of the entries of `l` that are excluded, in order.
pub open spec fn excluded_names(c: BackupConfig, l: Seq<SubdirEntry>) -> Seq<Seq<char>>
    decreases l.len(),
{
    if l.len() == 0 {
        Seq::empty()
    } else if entry_excluded(c, l.last()) {
        excluded_names(c, l.drop_last()).push(l.last().name@)
    } else {
        excluded_names(c, l.drop_last())
    }
}

/// Whether a directory counts as unchanged: not a full backup, not forced,
/// and the manifest records exactly `mtime` for it.
pub open spec fn unchanged(
    req: BackupRequest,
    m: Map<Seq<char>, u64>,
    name: Seq<char>,
    mtime: u64,
) -> bool {
    &&& !req.full
    &&& !listed(req.force_folders@, name)
    &&& m.contains_key(name)
    &&& m[name] == mtime
}

/// The destination name of a source kept as a directory: its path below
/// `~/Games` when it lies at or below that directory (leading `/`s dropped),
/// else its last component, else `backup`.
pub open spec fn keep_dir_name(source_path: Seq<char>, home: Option<Seq<char>>) -> Seq<char> {
    directory_name_spec(source_path, tilde_expansion("~/Games"@, home), path_file_name(source_path))
}

/// Whether `path` lies at or below the directory `root`: it is `root`
/// itself, or `root` followed by `/` and more.
pub open spec fn lies_under(path: Seq<char>, root: Seq<char>) -> bool {
    path == root || has_prefix(path, root.push('/'))
}

/// Whether `path` lies at or below the directory `root`.
pub fn is_under(path: &[char], root: &[char]) -> (r: bool)
    ensures
        r == lies_under(path@, root@),
{
    if chars_eq(path, root) {
        return true;
    }
    let mut dir = copy_range(root, 0, root.len());
    dir.push('/');
    assert(dir@ =~= root@.push('/'));
    starts_with(path, dir.as_slice())
}

/// The destination name of a source kept as a directory, given the games
/// root and the source's last component (if it has one).
pub open spec fn directory_name_spec(
    source_path: Seq<char>,
    games_root: Seq<char>,
    last_component: Option<Seq<char>>,
) -> Seq<char> {
    if lies_under(source_path, games_root) {
        trim_start_matches(source_path.skip(games_root.len() as int), seq!['/'])
    } else {
        match last_component {
            Some(n) => n,
            None => "backup"@,
        }
    }
}

/// The destination name of a source kept as a directory: its path below the
/// games root when it lies at or below that directory (leading `/`s
/// dropped), else its last component, else `backup`.
pub fn directory_name(source_path: &str, games_root: &str, last_component: Option<&str>) -> (r: String)
    ensures
        r@ == directory_name_spec(
            source_path@,
            games_root@,
            match last_component {
                Some(n) => Some(n@),
                None => None,
            },
        ),
{
    let src = chars_of(source_path);
    let games = chars_of(games_root);
    if is_under(src.as_slice(), games.as_slice()) {
        assert(has_prefix(src@, games@)) by {
            if src@ != games@ {
                let g = games@.len() as int;
                assert(src@.take(g + 1) == games@.push('/'));
                assert forall|i: int| 0 <= i < g implies src@.take(g)[i] == games@[i] by {
                    assert(src@.take(g + 1)[i] == games@.push('/')[i]);
                }
                assert(src@.take(g) =~= games@);
            } else {
                assert(src@.take(games@.len() as int) =~= src@);
            }
        }
        let rest = copy_range(src.as_slice(), games.len(), src.len());
        assert(rest@ =~= src@.skip(games@.len() as int));
        let slash = vec!['/'];
        assert(slash@ =~= seq!['/']);
        to_string(trim_start_matching(rest.as_slice(), slash.as_slice()).as_slice())
    } else {
        match last_component {
            Some(n) => lit(n),
            None => lit("backup"),
        }
    }
}

/// The copy of `src` to `dst` made during a backup: with the destination's
/// parallelism, `--update`, and the configured exclude patterns.
pub open spec fn backup_copy(c: BackupConfig, src: Seq<char>, dst: Seq<char>) -> CopyView {
    CopyView {
        src,
        dst,
        checkers: Some(c.checkers),
        update: true,
        ntfs: false,
        skip_links: false,
        exclude: string_views(c.request.backup_exclude@),
    }
}

/// Saving the manifest `m`.
pub open spec fn save_action(c: BackupConfig, m: Manifest) -> ActionView {
    ActionView::SaveManifest(c.manifest_path@, render_pairs(m.sorted_pairs()))
}

/// The configuration was derived from its request and home directory.
pub open spec fn config_wf(c: BackupConfig) -> bool {
    let home = opt_view(c.home);
    &&& c.home matches Some(h) ==> h@.len() > 0
    &&& c.source_path@ == tilde_expansion(c.request.source@, home)
    &&& c.dest_path@ == tilde_expansion(c.request.dest@, home)
    &&& c.manifest_path@ == tilde_expansion(MANIFEST_FILE@, home)
}

impl SourceBackup {
    /// The kept entry being dealt with.
    pub open spec fn current(self) -> SubdirEntry {
        self.kept@[self.index as int]
    }

    /// Where the current entry is copied to.
    pub open spec fn current_dst(self) -> Seq<char> {
        slash_join(self.config.dest_path@, self.current().name@)
    }

    /// Where a source kept as a directory is copied to.
    pub open spec fn keep_dir_dst(self) -> Seq<char> {
        slash_join(self.config.dest_path@, self.dir_name@)
    }

    /// The state is consistent: counters within bounds, kept entries not
    /// excluded, and the phase's position valid.
    pub open spec fn wf(self) -> bool {
        &&& config_wf(self.config)
        &&& self.manifest.wf()
        &&& self.index <= self.kept@.len()
        &&& self.changed + self.skipped <= self.index
        &&& self.pruned <= self.excluded@.len()
        &&& forall|i: int| 0 <= i < self.kept@.len() ==> !entry_excluded(self.config, #[trigger] self.kept@[i])
        &&& (self.phase is AwaitInterruptCheck || self.phase is AwaitEntryCopy || self.phase is AwaitCopyFailCheck || self.phase is AwaitEntrySave) ==> self.index < self.kept@.len()
        &&& (self.phase is AwaitPruneCheck || self.phase is AwaitPruneDelete) ==> self.pruned < self.excluded@.len()
        &&& self.config.request.keep_dir ==> (self.phase is AwaitMtime || self.phase is AwaitDestFiles
            || self.phase is AwaitSize || self.phase is AwaitDirCopy || self.phase is AwaitFinalSave
            || self.phase is Done)
    }

    /// Whether `ev` answers the action the phase waits on.
    pub open spec fn accepts_spec(self, ev: BackupEvent) -> bool {
        match self.phase {
            Phase::AwaitMtime => ev is Mtime,
            Phase::AwaitDestFiles { .. } => ev is DestHasFiles,
            Phase::AwaitSize { .. } => ev is TooSmall,
            Phase::AwaitDirCopy { .. } => ev is Copied,
            Phase::AwaitFinalSave { .. } => ev is Saved,
            Phase::AwaitSubdirs => ev is Subdirs,
            Phase::AwaitTreeCopy => ev is Copied,
            Phase::AwaitInterruptCheck => ev is Interrupted,
            Phase::AwaitEntryCopy => ev is Copied,
            Phase::AwaitCopyFailCheck { .. } => ev is Interrupted,
            Phase::AwaitInterruptedSave => ev is Saved,
            Phase::AwaitEntrySave => ev is Saved,
            Phase::AwaitLoopEndSave => ev is Saved,
            Phase::AwaitPruneCheck => ev is Exists,
            Phase::AwaitPruneDelete => ev is Deleted,
            Phase::Done => false,
        }
    }
}

/// The same directories, lists and counters.
pub open spec fn same_lists(o: SourceBackup, n: SourceBackup) -> bool {
    &&& n.kept == o.kept
    &&& n.excluded == o.excluded
}

/// Nothing but the phase changes.
pub open spec fn only_phase(o: SourceBackup, n: SourceBackup) -> bool {
    &&& same_lists(o, n)
    &&& n.manifest == o.manifest
    &&& n.index == o.index
    &&& n.pruned == o.pruned
    &&& n.changed == o.changed
    &&& n.skipped == o.skipped
}

/// Finishing with `r`.
pub open spec fn finish(n: SourceBackup, out: (Seq<NoticeView>, ActionView), notices: Seq<NoticeView>, r: Result<usize, Seq<char>>) -> bool {
    &&& n.phase is Done
    &&& out == (notices, ActionView::Finish(r))
}

/// After `n.index` has moved on: the next entry's interruption check, or the
/// manifest save that ends the loop.
pub open spec fn loop_next(n: SourceBackup, out: (Seq<NoticeView>, ActionView), notices: Seq<NoticeView>) -> bool {
    if n.index < n.kept@.len() {
        &&& n.phase is AwaitInterruptCheck
        &&& out == (notices, ActionView::CheckInterrupted)
    } else {
        &&& n.phase is AwaitLoopEndSave
        &&& out == (notices, save_action(n.config, n.manifest))
    }
}

/// After `n.pruned` has moved on: the next excluded directory's existence
/// check, or the summary that ends the backup.
pub open spec fn prune_next(n: SourceBackup, out: (Seq<NoticeView>, ActionView), notices: Seq<NoticeView>) -> bool {
    if n.pruned < n.excluded@.len() {
        &&& n.phase is AwaitPruneCheck
        &&& out == (notices, ActionView::CheckExists(slash_join(n.config.dest_path@, n.excluded@[n.pruned as int]@)))
    } else {
        finish(n, out, notices.push(NoticeView::Summary(n.changed, n.skipped)), Ok(n.changed))
    }
}

/// One step of the backup: from state `o`, on event `ev`, to state `n`
/// with output `out`.
pub open spec fn transition(o: SourceBackup, ev: BackupEvent, n: SourceBackup, out: (Seq<NoticeView>, ActionView)) -> bool {
    let c = o.config;
    let req = c.request;
    &&& n.config == o.config
    &&& n.dir_name == o.dir_name
    &&& match o.phase {
        Phase::AwaitMtime => match ev {
            BackupEvent::Mtime(m) => {
                let mtime = match m { Some(t) => t, None => 0 };
                &&& only_phase(o, n)
                &&& n.phase == Phase::AwaitDestFiles { mtime }
                &&& out == (Seq::<NoticeView>::empty(), ActionView::CheckDestHasFiles(o.keep_dir_dst()))
            },
            _ => false,
        },
        Phase::AwaitDestFiles { mtime } => match ev {
            BackupEvent::DestHasFiles(has_files) => {
                &&& only_phase(o, n)
                &&& if unchanged(req, o.manifest@, o.dir_name@, mtime) && has_files {
                    finish(n, out, seq![NoticeView::Unchanged(o.dir_name@)], Ok(0))
                } else if req.min_size_gb > 0 {
                    &&& n.phase == Phase::AwaitSize { mtime }
                    &&& out == (Seq::<NoticeView>::empty(), ActionView::MeasureSize(c.source_path@, req.min_size_gb))
                } else {
                    &&& n.phase == Phase::AwaitDirCopy { mtime }
                    &&& out == (seq![NoticeView::Copying(o.dir_name@)], ActionView::Copy(backup_copy(c, c.source_path@, o.keep_dir_dst())))
                }
            },
            _ => false,
        },
        Phase::AwaitSize { mtime } => match ev {
            BackupEvent::TooSmall(too_small) => if too_small {
                &&& same_lists(o, n)
                &&& n.manifest.wf()
                &&& n.manifest@ == o.manifest@.insert(o.dir_name@, mtime)
                &&& n.phase == Phase::AwaitFinalSave { result: 0 }
                &&& out == (seq![NoticeView::TooSmall(o.dir_name@, req.min_size_gb)], save_action(c, n.manifest))
            } else {
                &&& only_phase(o, n)
                &&& n.phase == Phase::AwaitDirCopy { mtime }
                &&& out == (seq![NoticeView::Copying(o.dir_name@)], ActionView::Copy(backup_copy(c, c.source_path@, o.keep_dir_dst())))
            },
            _ => false,
        },
        Phase::AwaitDirCopy { mtime } => match ev {
            BackupEvent::Copied(Ok(())) => {
                &&& same_lists(o, n)
                &&& n.manifest.wf()
                &&& n.manifest@ == o.manifest@.insert(o.dir_name@, mtime)
                &&& n.phase == Phase::AwaitFinalSave { result: 1 }
                &&& out == (Seq::<NoticeView>::empty(), save_action(c, n.manifest))
            },
            BackupEvent::Copied(Err(e)) => only_phase(o, n) && finish(n, out, Seq::empty(), Err(e@)),
            _ => false,
        },
        Phase::AwaitFinalSave { result } => match ev {
            BackupEvent::Saved(Ok(())) => only_phase(o, n) && finish(n, out, Seq::empty(), Ok(result)),
            BackupEvent::Saved(Err(e)) => only_phase(o, n) && finish(n, out, Seq::empty(), Err(e@)),
            _ => false,
        },
        Phase::AwaitSubdirs => match ev {
            BackupEvent::Subdirs(Err(e)) => only_phase(o, n) && finish(n, out, Seq::empty(), Err(e@)),
            BackupEvent::Subdirs(Ok(list)) => {
                let kept = kept_entries(c, list@);
                let excl = excluded_names(c, list@);
                &&& n.kept@ == kept
                &&& string_views(n.excluded@) == excl
                &&& n.manifest == o.manifest
                &&& n.index == 0
                &&& n.pruned == 0
                &&& n.changed == 0
                &&& n.skipped == 0
                &&& if kept.len() == 0 && excl.len() == 0 {
                    &&& n.phase is AwaitTreeCopy
                    &&& out == (seq![NoticeView::NoSubdirectories], ActionView::Copy(backup_copy(c, req.source@, req.dest@)))
                } else if kept.len() == 0 {
                    finish(n, out, seq![NoticeView::AllExcluded], Ok(0))
                } else {
                    &&& n.phase is AwaitInterruptCheck
                    &&& out == (Seq::<NoticeView>::empty(), ActionView::CheckInterrupted)
                }
            },
            _ => false,
        },
        Phase::AwaitTreeCopy => match ev {
            BackupEvent::Copied(Ok(())) => {
                &&& only_phase(o, n)
                &&& n.phase == Phase::AwaitFinalSave { result: 1 }
                &&& out == (Seq::<NoticeView>::empty(), save_action(c, o.manifest))
            },
            BackupEvent::Copied(Err(e)) => only_phase(o, n) && finish(n, out, Seq::empty(), Err(e@)),
            _ => false,
        },
        Phase::AwaitInterruptCheck => match ev {
            BackupEvent::Interrupted(true) => {
                &&& only_phase(o, n)
                &&& n.phase is AwaitLoopEndSave
                &&& out == (seq![NoticeView::Interrupted], save_action(c, o.manifest))
            },
            BackupEvent::Interrupted(false) => {
                let e = o.current();
                if unchanged(req, o.manifest@, e.name@, e.mtime) {
                    &&& same_lists(o, n)
                    &&& n.manifest == o.manifest
                    &&& n.index == o.index + 1
                    &&& n.pruned == o.pruned
                    &&& n.changed == o.changed
                    &&& n.skipped == o.skipped + 1
                    &&& loop_next(n, out, seq![NoticeView::Unchanged(e.name@)])
                } else {
                    &&& only_phase(o, n)
                    &&& n.phase is AwaitEntryCopy
                    &&& out == (seq![NoticeView::Copying(e.name@)], ActionView::Copy(backup_copy(c, e.path@, o.current_dst())))
                }
            },
            _ => false,
        },
        Phase::AwaitEntryCopy => match ev {
            BackupEvent::Copied(Ok(())) => {
                &&& same_lists(o, n)
                &&& n.manifest.wf()
                &&& n.manifest@ == o.manifest@.insert(o.current().name@, o.current().mtime)
                &&& n.index == o.index
                &&& n.pruned == o.pruned
                &&& n.changed == o.changed
                &&& n.skipped == o.skipped
                &&& n.phase is AwaitEntrySave
                &&& out == (Seq::<NoticeView>::empty(), save_action(c, n.manifest))
            },
            BackupEvent::Copied(Err(e)) => {
                &&& only_phase(o, n)
                &&& n.phase == Phase::AwaitCopyFailCheck { error: e }
                &&& out == (Seq::<NoticeView>::empty(), ActionView::CheckInterrupted)
            },
            _ => false,
        },
        Phase::AwaitCopyFailCheck { error } => match ev {
            BackupEvent::Interrupted(true) => {
                &&& only_phase(o, n)
                &&& n.phase is AwaitInterruptedSave
                &&& out == (Seq::<NoticeView>::empty(), save_action(c, o.manifest))
            },
            BackupEvent::Interrupted(false) => only_phase(o, n) && finish(n, out, Seq::empty(), Err(error@)),
            _ => false,
        },
        Phase::AwaitInterruptedSave => match ev {
            BackupEvent::Saved(Ok(())) => only_phase(o, n) && finish(n, out, seq![NoticeView::InterruptedSaved], Ok(o.changed)),
            BackupEvent::Saved(Err(e)) => only_phase(o, n) && finish(n, out, Seq::empty(), Err(e@)),
            _ => false,
        },
        Phase::AwaitEntrySave => match ev {
            BackupEvent::Saved(r) => {
                let notices = match r {
                    Ok(()) => Seq::<NoticeView>::empty(),
                    Err(e) => seq![NoticeView::SaveWarning(e@)],
                };
                &&& same_lists(o, n)
                &&& n.manifest == o.manifest
                &&& n.index == o.index + 1
                &&& n.pruned == o.pruned
                &&& n.changed == o.changed + 1
                &&& n.skipped == o.skipped
                &&& loop_next(n, out, notices)
            },
            _ => false,
        },
        Phase::AwaitLoopEndSave => match ev {
            BackupEvent::Saved(Ok(())) => {
                &&& same_lists(o, n)
                &&& n.manifest == o.manifest
                &&& n.index == o.index
                &&& n.pruned == 0
                &&& n.changed == o.changed
                &&& n.skipped == o.skipped
                &&& prune_next(n, out, Seq::empty())
            },
            BackupEvent::Saved(Err(e)) => only_phase(o, n) && finish(n, out, Seq::empty(), Err(e@)),
            _ => false,
        },
        Phase::AwaitPruneCheck => match ev {
            BackupEvent::Exists(true) => {
                let name = o.excluded@[o.pruned as int]@;
                &&& only_phase(o, n)
                &&& n.phase is AwaitPruneDelete
                &&& out == (seq![NoticeView::Pruning(name)], ActionView::Delete(slash_join(c.dest_path@, name)))
            },
            BackupEvent::Exists(false) => {
                &&& same_lists(o, n)
                &&& n.manifest == o.manifest
                &&& n.index == o.index
                &&& n.pruned == o.pruned + 1
                &&& n.changed == o.changed
                &&& n.skipped == o.skipped
                &&& prune_next(n, out, Seq::empty())
            },
            _ => false,
        },
        Phase::AwaitPruneDelete => match ev {
            BackupEvent::Deleted => {
                &&& same_lists(o, n)
                &&& n.manifest == o.manifest
                &&& n.index == o.index
                &&& n.pruned == o.pruned + 1
                &&& n.changed == o.changed
                &&& n.skipped == o.skipped
                &&& prune_next(n, out, seq![NoticeView::Pruned(o.excluded@[o.pruned as int]@)])
            },
            _ => false,
        },
        Phase::Done => false,
    }
}

/// Whether `name` is among `list` (`<[String]>::contains`).
pub fn listed_in(list: &[String], name: &[char]) -> (r: bool)
    ensures
        r == listed(list@, name@),
{
    let mut i: usize = 0;
    while i < list.len()
        invariant
            i <= list@.len(),
            forall|j: int| 0 <= j < i ==> (#[trigger] list@[j])@ != name@,
        decreases list@.len() - i,
    {
        let item = chars_of(list[i].as_str());
        if chars_eq(item.as_slice(), name) {
            assert(list@[i as int]@ == name@);
            return true;
        }
        i = i + 1;
    }
    false
}

/// Whether a subdirectory `name` at `full_src` is excluded: some exclude is
/// its name, or expands (against `home`) to its full path.
pub fn is_excluded(name: &str, full_src: &str, excludes: &[String], home: &Option<String>) -> (r: bool)
    ensures
        r == excluded_by(excludes@, opt_view(*home), name@, full_src@),
{
    let n = chars_of(name);
    let f = chars_of(full_src);
    let mut i: usize = 0;
    while i < excludes.len()
        invariant
            i <= excludes@.len(),
            n@ == name@,
            f@ == full_src@,
            forall|j: int|
                0 <= j < i ==> !((#[trigger] excludes@[j])@ == name@ || tilde_expansion(
                    excludes@[j]@,
                    opt_view(*home),
                ) == full_src@),
        decreases excludes@.len() - i,
    {
        let e = chars_of(excludes[i].as_str());
        let x = expand_tilde_with(e.as_slice(), home);
        if chars_eq(e.as_slice(), n.as_slice()) || chars_eq(x.as_slice(), f.as_slice()) {
            assert(excludes@[i as int]@ == name@ || tilde_expansion(excludes@[i as int]@, opt_view(*home)) == full_src@);
            return true;
        }
        i = i + 1;
    }
    false
}

/// The notices' views.
pub open spec fn notice_views(v: Seq<Notice>) -> Seq<NoticeView> {
    v.map_values(|n: Notice| n@)
}

fn no_notices() -> (v: Vec<Notice>)
    ensures
        notice_views(v@) == Seq::<NoticeView>::empty(),
{
    let v: Vec<Notice> = Vec::new();
    assert(notice_views(v@) =~= Seq::<NoticeView>::empty());
    v
}

fn one_notice(n: Notice) -> (v: Vec<Notice>)
    ensures
        notice_views(v@) == seq![n@],
{
    let ghost nv = n@;
    let mut v: Vec<Notice> = Vec::new();
    v.push(n);
    assert(notice_views(v@) =~= seq![nv]);
    v
}

fn push_notice(v: &mut Vec<Notice>, n: Notice)
    ensures
        notice_views(final(v)@) == notice_views(old(v)@).push(n@),
{
    let ghost nv = n@;
    v.push(n);
    assert(notice_views(v@) =~= notice_views(old(v)@).push(nv));
}

fn to_string(c: &[char]) -> (s: String)
    ensures
        s@ == c@,
{
    string_from_chars(c)
}

impl SourceBackup {
    /// Begins backing up `request.source` to a destination whose disk runs
    /// `checkers` checks in parallel. `stored_manifest` is the manifest file's
    /// text (read only for an incremental backup). The home directory is looked
    /// up once, and every `~` is expanded against it.
    pub fn start(request: BackupRequest, checkers: u32, stored_manifest: &str) -> (r: (SourceBackup, Step))
        ensures
            r.0.wf(),
            r.0.config.request == request,
            r.0.config.checkers == checkers,
            r.0.manifest@ == (if request.full {
                Map::<Seq<char>, u64>::empty()
            } else {
                manifest_of_text(stored_manifest@)
            }),
            r.0.kept@.len() == 0,
            r.0.excluded@.len() == 0,
            r.0.index == 0,
            r.0.pruned == 0,
            r.0.changed == 0,
            r.0.skipped == 0,
            request.keep_dir ==> {
                &&& r.0.dir_name@ == keep_dir_name(r.0.config.source_path@, opt_view(r.0.config.home))
                &&& r.0.phase is AwaitMtime
                &&& r.1@ == (Seq::<NoticeView>::empty(), ActionView::ReadMtime(r.0.config.source_path@))
            },
            !request.keep_dir ==> {
                &&& r.0.phase is AwaitSubdirs
                &&& r.1@ == (Seq::<NoticeView>::empty(), ActionView::ListSubdirs(r.0.config.source_path@))
            },
    {
        let home = current_home();
        let src_x = expand_tilde_with(chars_of(request.source.as_str()).as_slice(), &home);
        let dest_x = expand_tilde_with(chars_of(request.dest.as_str()).as_slice(), &home);
        let man_x = expand_tilde_with(chars_of(MANIFEST_FILE).as_slice(), &home);
        let manifest = if request.full {
            Manifest::new()
        } else {
            Manifest::parse(stored_manifest)
        };
        let dir_name = if request.keep_dir {
            let games = to_string(expand_tilde_with(chars_of("~/Games").as_slice(), &home).as_slice());
            let src = to_string(src_x.as_slice());
            if is_under(src_x.as_slice(), chars_of(games.as_str()).as_slice()) {
                directory_name(src.as_str(), games.as_str(), None)
            } else {
                match file_name_of(src.as_str()) {
                    Some(n) => directory_name(src.as_str(), games.as_str(), Some(n.as_str())),
                    None => directory_name(src.as_str(), games.as_str(), None),
                }
            }
        } else {
            String::new()
        };
        let keep_dir = request.keep_dir;
        let config = BackupConfig {
            request,
            home,
            checkers,
            source_path: to_string(src_x.as_slice()),
            dest_path: to_string(dest_x.as_slice()),
            manifest_path: to_string(man_x.as_slice()),
        };
        let action = if keep_dir {
            BackupAction::ReadMtime(config.source_path.clone())
        } else {
            BackupAction::ListSubdirs(config.source_path.clone())
        };
        let machine = SourceBackup {
            config,
            manifest,
            dir_name,
            kept: Vec::new(),
            excluded: Vec::new(),
            index: 0,
            pruned: 0,
            changed: 0,
            skipped: 0,
            phase: if keep_dir {
                Phase::AwaitMtime
            } else {
                Phase::AwaitSubdirs
            },
        };
        let step = Step { notices: no_notices(), action };
        (machine, step)
    }

    /// Whether `ev` answers the action the backup waits on.
    pub fn accepts(&self, ev: &BackupEvent) -> (r: bool)
        ensures
            r == self.accepts_spec(*ev),
    {
        match &self.phase {
            Phase::AwaitMtime => matches!(ev, BackupEvent::Mtime(_)),
            Phase::AwaitDestFiles { .. } => matches!(ev, BackupEvent::DestHasFiles(_)),
            Phase::AwaitSize { .. } => matches!(ev, BackupEvent::TooSmall(_)),
            Phase::AwaitDirCopy { .. } => matches!(ev, BackupEvent::Copied(_)),
            Phase::AwaitFinalSave { .. } => matches!(ev, BackupEvent::Saved(_)),
            Phase::AwaitSubdirs => matches!(ev, BackupEvent::Subdirs(_)),
            Phase::AwaitTreeCopy => matches!(ev, BackupEvent::Copied(_)),
            Phase::AwaitInterruptCheck => matches!(ev, BackupEvent::Interrupted(_)),
            Phase::AwaitEntryCopy => matches!(ev, BackupEvent::Copied(_)),
            Phase::AwaitCopyFailCheck { .. } => matches!(ev, BackupEvent::Interrupted(_)),
            Phase::AwaitInterruptedSave => matches!(ev, BackupEvent::Saved(_)),
            Phase::AwaitEntrySave => matches!(ev, BackupEvent::Saved(_)),
            Phase::AwaitLoopEndSave => matches!(ev, BackupEvent::Saved(_)),
            Phase::AwaitPruneCheck => matches!(ev, BackupEvent::Exists(_)),
            Phase::AwaitPruneDelete => matches!(ev, BackupEvent::Deleted),
            Phase::Done => false,
        }
    }

    fn save_now(&self) -> (a: BackupAction)
        requires
            self.manifest.wf(),
        ensures
            a@ == save_action(self.config, self.manifest),
    {
        BackupAction::SaveManifest {
            path: self.config.manifest_path.clone(),
            contents: self.manifest.render(),
        }
    }

    fn copy_to(&self, src: &str, dst: &[char]) -> (a: BackupAction)
        ensures
            a@ == ActionView::Copy(backup_copy(self.config, src@, dst@)),
    {
        let d = to_string(dst);
        let o = CopyOpts::new(src, d.as_str()).checkers(self.config.checkers).update(true).exclude(
            self.config.request.backup_exclude.as_slice(),
        );
        assert(o@ == backup_copy(self.config, src@, dst@));
        BackupAction::Copy(o)
    }

    fn is_unchanged(&self, name: &str, mtime: u64) -> (r: bool)
        requires
            self.manifest.wf(),
        ensures
            r == unchanged(self.config.request, self.manifest@, name@, mtime),
    {
        let n = chars_of(name);
        if self.config.request.full || listed_in(self.config.request.force_folders.as_slice(), n.as_slice()) {
            return false;
        }
        match self.manifest.get(n.as_slice()) {
            Some(t) => t == mtime,
            None => false,
        }
    }

    fn loop_advance(&mut self, notices: Vec<Notice>) -> (s: Step)
        requires
            old(self).manifest.wf(),
        ensures
            *final(self) == (SourceBackup { phase: final(self).phase, ..*old(self) }),
            loop_next(*final(self), s@, notice_views(notices@)),
    {
        if self.index < self.kept.len() {
            self.phase = Phase::AwaitInterruptCheck;
            Step { notices, action: BackupAction::CheckInterrupted }
        } else {
            let action = self.save_now();
            self.phase = Phase::AwaitLoopEndSave;
            Step { notices, action }
        }
    }

    fn prune_advance(&mut self, notices: Vec<Notice>) -> (s: Step)
        requires
            old(self).pruned <= old(self).excluded@.len(),
        ensures
            *final(self) == (SourceBackup { phase: final(self).phase, ..*old(self) }),
            prune_next(*final(self), s@, notice_views(notices@)),
    {
        if self.pruned < self.excluded.len() {
            let name = chars_of(self.excluded[self.pruned].as_str());
            let mut p = chars_of(self.config.dest_path.as_str());
            p.push('/');
            let p = concat(p.as_slice(), name.as_slice());
            assert(p@ =~= slash_join(self.config.dest_path@, self.excluded@[self.pruned as int]@));
            self.phase = Phase::AwaitPruneCheck;
            Step { notices, action: BackupAction::CheckExists(to_string(p.as_slice())) }
        } else {
            let mut notices = notices;
            push_notice(&mut notices, Notice::Summary { changed: self.changed, skipped: self.skipped });
            self.phase = Phase::Done;
            Step { notices, action: BackupAction::Finish(Ok(self.changed)) }
        }
    }

    fn keep_dir_target(&self) -> (p: Vec<char>)
        ensures
            p@ == self.keep_dir_dst(),
    {
        let mut p = chars_of(self.config.dest_path.as_str());
        p.push('/');
        let p = concat(p.as_slice(), chars_of(self.dir_name.as_str()).as_slice());
        assert(p@ =~= self.keep_dir_dst());
        p
    }

    fn current_target(&self) -> (p: Vec<char>)
        requires
            self.index < self.kept@.len(),
        ensures
            p@ == self.current_dst(),
    {
        let mut p = chars_of(self.config.dest_path.as_str());
        p.push('/');
        let p = concat(p.as_slice(), chars_of(self.kept[self.index].name.as_str()).as_slice());
        assert(p@ =~= self.current_dst());
        p
    }

    fn finish_with(&mut self, notices: Vec<Notice>, r: Result<usize, String>) -> (s: Step)
        ensures
            *final(self) == (SourceBackup { phase: final(self).phase, ..*old(self) }),
            finish(*final(self), s@, notice_views(notices@), match r {
                Ok(n) => Ok(n),
                Err(e) => Err(e@),
            }),
    {
        self.phase = Phase::Done;
        Step { notices, action: BackupAction::Finish(r) }
    }

    /// Advances the backup on the answer `ev` to the last action.
    pub fn step(&mut self, ev: BackupEvent) -> (s: Step)
        requires
            old(self).wf(),
            old(self).accepts_spec(ev),
        ensures
            final(self).wf(),
            transition(*old(self), ev, *final(self), s@),
    {
        match &self.phase {
            Phase::AwaitMtime => {
                match ev {
                    BackupEvent::Mtime(m) => {
                        let mtime = match m {
                            Some(t) => t,
                            None => 0,
                        };
                        let target = self.keep_dir_target();
                        self.phase = Phase::AwaitDestFiles { mtime };
                        Step { notices: no_notices(), action: BackupAction::CheckDestHasFiles(to_string(target.as_slice())) }
                    },
                    _ => {
                        proof { assert(false); }
                        Step { notices: no_notices(), action: BackupAction::CheckInterrupted }
                    },
                }
            },
            Phase::AwaitDestFiles { mtime } => {
                let mtime = *mtime;
                match ev {
                    BackupEvent::DestHasFiles(has_files) => {
                        if self.is_unchanged(self.dir_name.as_str(), mtime) && has_files {
                            let n = one_notice(Notice::Unchanged(self.dir_name.clone()));
                            self.finish_with(n, Ok(0))
                        } else if self.config.request.min_size_gb > 0 {
                            self.phase = Phase::AwaitSize { mtime };
                            Step {
                                notices: no_notices(),
                                action: BackupAction::MeasureSize {
                                    path: self.config.source_path.clone(),
                                    min_size_gb: self.config.request.min_size_gb,
                                },
                            }
                        } else {
                            let target = self.keep_dir_target();
                            let action = self.copy_to(self.config.source_path.as_str(), target.as_slice());
                            self.phase = Phase::AwaitDirCopy { mtime };
                            Step { notices: one_notice(Notice::Copying(self.dir_name.clone())), action }
                        }
                    },
                    _ => {
                        proof { assert(false); }
                        Step { notices: no_notices(), action: BackupAction::CheckInterrupted }
                    },
                }
            },
            Phase::AwaitSize { mtime } => {
                let mtime = *mtime;
                match ev {
                    BackupEvent::TooSmall(too_small) => {
                        if too_small {
                            let name = chars_of(self.dir_name.as_str());
                            self.manifest.insert(name.as_slice(), mtime);
                            let action = self.save_now();
                            self.phase = Phase::AwaitFinalSave { result: 0 };
                            Step {
                                notices: one_notice(Notice::TooSmall {
                                    name: self.dir_name.clone(),
                                    min_size_gb: self.config.request.min_size_gb,
                                }),
                                action,
                            }
                        } else {
                            let target = self.keep_dir_target();
                            let action = self.copy_to(self.config.source_path.as_str(), target.as_slice());
                            self.phase = Phase::AwaitDirCopy { mtime };
                            Step { notices: one_notice(Notice::Copying(self.dir_name.clone())), action }
                        }
                    },
                    _ => {
                        proof { assert(false); }
                        Step { notices: no_notices(), action: BackupAction::CheckInterrupted }
                    },
                }
            },
            Phase::AwaitDirCopy { mtime } => {
                let mtime = *mtime;
                match ev {
                    BackupEvent::Copied(Ok(())) => {
                        let name = chars_of(self.dir_name.as_str());
                        self.manifest.insert(name.as_slice(), mtime);
                        let action = self.save_now();
                        self.phase = Phase::AwaitFinalSave { result: 1 };
                        Step { notices: no_notices(), action }
                    },
                    BackupEvent::Copied(Err(e)) => self.finish_with(no_notices(), Err(e)),
                    _ => {
                        proof { assert(false); }
                        Step { notices: no_notices(), action: BackupAction::CheckInterrupted }
                    },
                }
            },
            Phase::AwaitFinalSave { result } => {
                let result = *result;
                match ev {
                    BackupEvent::Saved(Ok(())) => self.finish_with(no_notices(), Ok(result)),
                    BackupEvent::Saved(Err(e)) => self.finish_with(no_notices(), Err(e)),
                    _ => {
                        proof { assert(false); }
                        Step { notices: no_notices(), action: BackupAction::CheckInterrupted }
                    },
                }
            },
            Phase::AwaitSubdirs => {
                match ev {
                    BackupEvent::Subdirs(Err(e)) => self.finish_with(no_notices(), Err(e)),
                    BackupEvent::Subdirs(Ok(list)) => self.take_subdirs(list),
                    _ => {
                        proof { assert(false); }
                        Step { notices: no_notices(), action: BackupAction::CheckInterrupted }
                    },
                }
            },
            Phase::AwaitTreeCopy => {
                match ev {
                    BackupEvent::Copied(Ok(())) => {
                        let action = self.save_now();
                        self.phase = Phase::AwaitFinalSave { result: 1 };
                        Step { notices: no_notices(), action }
                    },
                    BackupEvent::Copied(Err(e)) => self.finish_with(no_notices(), Err(e)),
                    _ => {
                        proof { assert(false); }
                        Step { notices: no_notices(), action: BackupAction::CheckInterrupted }
                    },
                }
            },
            Phase::AwaitInterruptCheck => {
                match ev {
                    BackupEvent::Interrupted(true) => {
                        let action = self.save_now();
                        self.phase = Phase::AwaitLoopEndSave;
                        Step { notices: one_notice(Notice::Interrupted), action }
                    },
                    BackupEvent::Interrupted(false) => {
                        let i = self.index;
                        let len = self.kept.len();
                        assert(i < len);
                        if self.is_unchanged(self.kept[i].name.as_str(), self.kept[i].mtime) {
                            let n = one_notice(Notice::Unchanged(self.kept[i].name.clone()));
                            self.skipped = self.skipped + 1;
                            self.index = self.index + 1;
                            self.loop_advance(n)
                        } else {
                            let target = self.current_target();
                            let action = self.copy_to(self.kept[i].path.as_str(), target.as_slice());
                            self.phase = Phase::AwaitEntryCopy;
                            Step { notices: one_notice(Notice::Copying(self.kept[i].name.clone())), action }
                        }
                    },
                    _ => {
                        proof { assert(false); }
                        Step { notices: no_notices(), action: BackupAction::CheckInterrupted }
                    },
                }
            },
            Phase::AwaitEntryCopy => {
                match ev {
                    BackupEvent::Copied(Ok(())) => {
                        let i = self.index;
                        let name = chars_of(self.kept[i].name.as_str());
                        let mtime = self.kept[i].mtime;
                        self.manifest.insert(name.as_slice(), mtime);
                        let action = self.save_now();
                        self.phase = Phase::AwaitEntrySave;
                        Step { notices: no_notices(), action }
                    },
                    BackupEvent::Copied(Err(e)) => {
                        self.phase = Phase::AwaitCopyFailCheck { error: e };
                        Step { notices: no_notices(), action: BackupAction::CheckInterrupted }
                    },
                    _ => {
                        proof { assert(false); }
                        Step { notices: no_notices(), action: BackupAction::CheckInterrupted }
                    },
                }
            },
            Phase::AwaitCopyFailCheck { error } => {
                let error = error.clone();
                match ev {
                    BackupEvent::Interrupted(true) => {
                        let action = self.save_now();
                        self.phase = Phase::AwaitInterruptedSave;
                        Step { notices: no_notices(), action }
                    },
                    BackupEvent::Interrupted(false) => self.finish_with(no_notices(), Err(error)),
                    _ => {
                        proof { assert(false); }
                        Step { notices: no_notices(), action: BackupAction::CheckInterrupted }
                    },
                }
            },
            Phase::AwaitInterruptedSave => {
                match ev {
                    BackupEvent::Saved(Ok(())) => {
                        let changed = self.changed;
                        self.finish_with(one_notice(Notice::InterruptedSaved), Ok(changed))
                    },
                    BackupEvent::Saved(Err(e)) => self.finish_with(no_notices(), Err(e)),
                    _ => {
                        proof { assert(false); }
                        Step { notices: no_notices(), action: BackupAction::CheckInterrupted }
                    },
                }
            },
            Phase::AwaitEntrySave => {
                match ev {
                    BackupEvent::Saved(r) => {
                        let len = self.kept.len();
                        assert(self.index < len);
                        let n = match r {
                            Ok(()) => no_notices(),
                            Err(e) => one_notice(Notice::SaveWarning(e)),
                        };
                        self.changed = self.changed + 1;
                        self.index = self.index + 1;
                        self.loop_advance(n)
                    },
                    _ => {
                        proof { assert(false); }
                        Step { notices: no_notices(), action: BackupAction::CheckInterrupted }
                    },
                }
            },
            Phase::AwaitLoopEndSave => {
                match ev {
                    BackupEvent::Saved(Ok(())) => {
                        self.pruned = 0;
                        self.prune_advance(no_notices())
                    },
                    BackupEvent::Saved(Err(e)) => self.finish_with(no_notices(), Err(e)),
                    _ => {
                        proof { assert(false); }
                        Step { notices: no_notices(), action: BackupAction::CheckInterrupted }
                    },
                }
            },
            Phase::AwaitPruneCheck => {
                match ev {
                    BackupEvent::Exists(true) => {
                        let name = chars_of(self.excluded[self.pruned].as_str());
                        let mut p = chars_of(self.config.dest_path.as_str());
                        p.push('/');
                        let p = concat(p.as_slice(), name.as_slice());
                        assert(p@ =~= slash_join(self.config.dest_path@, self.excluded@[self.pruned as int]@));
                        self.phase = Phase::AwaitPruneDelete;
                        Step {
                            notices: one_notice(Notice::Pruning(self.excluded[self.pruned].clone())),
                            action: BackupAction::Delete(to_string(p.as_slice())),
                        }
                    },
                    BackupEvent::Exists(false) => {
                        let len = self.excluded.len();
                        assert(self.pruned < len);
                        self.pruned = self.pruned + 1;
                        self.prune_advance(no_notices())
                    },
                    _ => {
                        proof { assert(false); }
                        Step { notices: no_notices(), action: BackupAction::CheckInterrupted }
                    },
                }
            },
            Phase::AwaitPruneDelete => {
                match ev {
                    BackupEvent::Deleted => {
                        let n = one_notice(Notice::Pruned(self.excluded[self.pruned].clone()));
                        let len = self.excluded.len();
                        assert(self.pruned < len);
                        self.pruned = self.pruned + 1;
                        self.prune_advance(n)
                    },
                    _ => {
                        proof { assert(false); }
                        Step { notices: no_notices(), action: BackupAction::CheckInterrupted }
                    },
                }
            },
            Phase::Done => {
                proof { assert(false); }
                Step { notices: no_notices(), action: BackupAction::CheckInterrupted }
            },
        }
    }

    /// Splits the listed subdirectories into the kept and the excluded, and
    /// starts on them.
    fn take_subdirs(&mut self, list: Vec<SubdirEntry>) -> (s: Step)
        requires
            old(self).wf(),
            old(self).phase is AwaitSubdirs,
        ensures
            final(self).wf(),
            transition(*old(self), BackupEvent::Subdirs(Ok(list)), *final(self), s@),
    {
        let ghost l = list@;
        let mut kept: Vec<SubdirEntry> = Vec::new();
        let mut excluded: Vec<String> = Vec::new();
        for e in it: list
            invariant
                it.seq() == l,
                config_wf(self.config),
                kept@ == kept_entries(self.config, l.take(it.index() as int)),
                string_views(excluded@) == excluded_names(self.config, l.take(it.index() as int)),
                forall|i: int| 0 <= i < kept@.len() ==> !entry_excluded(self.config, #[trigger] kept@[i]),
        {
            let ghost k = it.index();
            assert(l.take(k + 1).drop_last() =~= l.take(k as int));
            assert(l.take(k + 1).last() == e);
            if is_excluded(e.name.as_str(), e.path.as_str(), self.config.request.excludes.as_slice(), &self.config.home) {
                let ghost ev = excluded;
                excluded.push(e.name);
                assert(string_views(excluded@) =~= string_views(ev@).push(l.take(k + 1).last().name@));
            } else {
                kept.push(e);
            }
        }
        assert(l.take(l.len() as int) =~= l);
        self.kept = kept;
        self.excluded = excluded;
        self.index = 0;
        self.pruned = 0;
        self.changed = 0;
        self.skipped = 0;
        if self.kept.len() == 0 && self.excluded.len() == 0 {
            assert(string_views(self.excluded@).len() == 0);
            let action = self.copy_to(self.config.request.source.as_str(), chars_of(self.config.request.dest.as_str()).as_slice());
            self.phase = Phase::AwaitTreeCopy;
            Step { notices: one_notice(Notice::NoSubdirectories), action }
        } else if self.kept.len() == 0 {
            self.finish_with(one_notice(Notice::AllExcluded), Ok(0))
        } else {
            self.phase = Phase::AwaitInterruptCheck;
            Step { notices: no_notices(), action: BackupAction::CheckInterrupted }
        }
    }
}

/// The entries are in ascending order of name (equal names in any order).
pub open spec fn sorted_by_name(s: Seq<SubdirEntry>) -> bool {
    forall|i: int, j: int| 0 <= i < j < s.len() ==> !lex_lt(#[trigger] s[j].name@, #[trigger] s[i].name@)
}

/// Sorts subdirectory entries by name (`list_subdirs`'s order).
pub fn sort_subdirs(entries: Vec<SubdirEntry>) -> (r: Vec<SubdirEntry>)
    ensures
        sorted_by_name(r@),
        r@.to_multiset() == entries@.to_multiset(),
{
    broadcast use vstd::seq_lib::to_multiset_build, vstd::seq_lib::to_multiset_insert;
    let ghost all = entries@;
    let mut out: Vec<SubdirEntry> = Vec::new();
    assert(out@.to_multiset() =~= all.take(0).to_multiset()) by {
        assert(all.take(0) =~= Seq::<SubdirEntry>::empty());
        assert(out@ =~= Seq::<SubdirEntry>::empty());
    }
    for e in it: entries
        invariant
            it.seq() == all,
            sorted_by_name(out@),
            out@.to_multiset() == all.take(it.index() as int).to_multiset(),
    {
        let ghost k = it.index();
        let name = chars_of(e.name.as_str());
        let mut p: usize = 0;
        while p < out.len() && !lex_less(name.as_slice(), chars_of(out[p].name.as_str()).as_slice())
            invariant
                p <= out@.len(),
                name@ == e.name@,
                forall|i: int| 0 <= i < p ==> !lex_lt(e.name@, #[trigger] out@[i].name@),
            decreases out@.len() - p,
        {
            p = p + 1;
        }
        let ghost old_out = out@;
        proof {
            assert forall|j: int| p <= j < old_out.len() implies lex_lt(e.name@, #[trigger] old_out[j].name@) by {
                assert(lex_lt(e.name@, old_out[p as int].name@));
                if j > p {
                    assert(!lex_lt(old_out[j].name@, old_out[p as int].name@));
                    lemma_lex_total(old_out[j].name@, old_out[p as int].name@);
                    if old_out[j].name@ != old_out[p as int].name@ {
                        lemma_lex_transitive(e.name@, old_out[p as int].name@, old_out[j].name@);
                    }
                }
            }
        }
        out.insert(p, e);
        proof {
            assert(out@ == old_out.insert(p as int, e));
            assert(all.take(k + 1) =~= all.take(k as int).push(e));
            vstd::seq_lib::to_multiset_insert(old_out, p as int, e);
            vstd::seq_lib::to_multiset_build(all.take(k as int), e);
            assert(out@.to_multiset() == all.take(k + 1).to_multiset());
            assert forall|i: int, j: int| 0 <= i < j < out@.len() implies !lex_lt(
                #[trigger] out@[j].name@,
                #[trigger] out@[i].name@,
            ) by {
                if j < p {
                    assert(out@[i] == old_out[i] && out@[j] == old_out[j]);
                } else if j == p {
                    assert(out@[i] == old_out[i]);
                } else if i > p {
                    assert(out@[i] == old_out[i - 1] && out@[j] == old_out[j - 1]);
                } else if i == p {
                    assert(out@[j] == old_out[j - 1]);
                    assert(lex_lt(e.name@, old_out[j - 1].name@));
                    if lex_lt(old_out[j - 1].name@, e.name@) {
                        lemma_lex_transitive(e.name@, old_out[j - 1].name@, e.name@);
                        lemma_lex_irreflexive(e.name@);
                    }
                } else {
                    assert(out@[i] == old_out[i] && out@[j] == old_out[j - 1]);
                }
            }
        }
    }
    assert(all.take(all.len() as int) =~= all);
    out
}

/// Change tracking: in a flat source, a subdirectory whose recorded time is
/// its current time is skipped (and counted as skipped), unless the backup is
/// full or the directory forced; any other subdirectory is copied to
/// `<dest>/<name>`.
pub proof fn lemma_unchanged_skipped(o: SourceBackup, n: SourceBackup, out: (Seq<NoticeView>, ActionView))
    requires
        o.wf(),
        o.phase is AwaitInterruptCheck,
        transition(o, BackupEvent::Interrupted(false), n, out),
    ensures
        unchanged(o.config.request, o.manifest@, o.current().name@, o.current().mtime) ==> {
            &&& !(out.1 is Copy)
            &&& n.skipped == o.skipped + 1
            &&& out.0 == seq![NoticeView::Unchanged(o.current().name@)]
        },
        !unchanged(o.config.request, o.manifest@, o.current().name@, o.current().mtime) ==> out.1
            == ActionView::Copy(
            backup_copy(o.config, o.current().path@, slash_join(o.config.dest_path@, o.current().name@)),
        ),
{
}

/// A full backup ignores the manifest: every subdirectory reached is copied.
pub proof fn lemma_full_copies_all(o: SourceBackup, n: SourceBackup, out: (Seq<NoticeView>, ActionView))
    requires
        o.wf(),
        o.config.request.full,
        o.phase is AwaitInterruptCheck,
        transition(o, BackupEvent::Interrupted(false), n, out),
    ensures
        out.1 == ActionView::Copy(
            backup_copy(o.config, o.current().path@, slash_join(o.config.dest_path@, o.current().name@)),
        ),
{
}

/// A source kept as a directory is skipped exactly when it is unchanged and
/// its destination holds files.
pub proof fn lemma_keep_dir_skip(o: SourceBackup, mtime: u64, has_files: bool, n: SourceBackup, out: (Seq<NoticeView>, ActionView))
    requires
        o.wf(),
        o.phase == (Phase::AwaitDestFiles { mtime }),
        transition(o, BackupEvent::DestHasFiles(has_files), n, out),
    ensures
        (out.1 == ActionView::Finish(Ok(0)))
            <==> (unchanged(o.config.request, o.manifest@, o.dir_name@, mtime) && has_files),
{
}

/// Excluded subdirectories are never copied: every copy in the flat loop
/// is of a kept entry, and no kept entry is excluded.
pub proof fn lemma_excluded_never_copied(o: SourceBackup, ev: BackupEvent, n: SourceBackup, out: (Seq<NoticeView>, ActionView))
    requires
        o.wf(),
        o.phase is AwaitInterruptCheck,
        transition(o, ev, n, out),
        out.1 is Copy,
    ensures
        exists|i: int|
            0 <= i < o.kept@.len() && (#[trigger] o.kept@[i]).path@ == out.1->Copy_0.src
                && !entry_excluded(o.config, o.kept@[i]),
{
    assert(o.kept@[o.index as int] == o.current());
}

/// When every subdirectory is excluded nothing is copied at all (the whole
/// tree is copied only when the source has no subdirectories).
pub proof fn lemma_all_excluded_copies_nothing(
    o: SourceBackup,
    list: Vec<SubdirEntry>,
    n: SourceBackup,
    out: (Seq<NoticeView>, ActionView),
)
    requires
        o.wf(),
        o.phase is AwaitSubdirs,
        transition(o, BackupEvent::Subdirs(Ok(list)), n, out),
        kept_entries(o.config, list@).len() == 0,
        excluded_names(o.config, list@).len() > 0,
    ensures
        out == (seq![NoticeView::AllExcluded], ActionView::Finish(Ok(0))),
{
}

/// Pruning comes last: the backup reaches a prune step only from the
/// manifest save that ends the copying (when it succeeded) or from another
/// prune step.
pub proof fn lemma_prune_after_save(o: SourceBackup, ev: BackupEvent, n: SourceBackup, out: (Seq<NoticeView>, ActionView))
    requires
        o.wf(),
        transition(o, ev, n, out),
        n.phase is AwaitPruneCheck || n.phase is AwaitPruneDelete || out.1 is Delete || out.1 is CheckExists,
    ensures
        (o.phase is AwaitLoopEndSave && ev matches BackupEvent::Saved(Ok(_))) || o.phase is AwaitPruneCheck
            || o.phase is AwaitPruneDelete,
{
}

/// An interruption saves the progress: noticed between directories, the
/// manifest is saved next; noticed after a failed copy, the manifest is saved
/// and the backup then ends with the number copied so far.
pub proof fn lemma_interrupt_saves(o: SourceBackup, n: SourceBackup, out: (Seq<NoticeView>, ActionView))
    requires
        o.wf(),
        o.phase is AwaitInterruptCheck || o.phase is AwaitCopyFailCheck,
        transition(o, BackupEvent::Interrupted(true), n, out),
    ensures
        out.1 == save_action(o.config, o.manifest),
        n.manifest == o.manifest,
{
}

/// A directory copied successfully has its time recorded in the manifest
/// saved right after, and reading that saved text back gives the recorded
/// time (for names a manifest can store).
pub proof fn lemma_copy_recorded(o: SourceBackup, n: SourceBackup, out: (Seq<NoticeView>, ActionView))
    requires
        o.wf(),
        o.phase is AwaitEntryCopy,
        transition(o, BackupEvent::Copied(Ok(())), n, out),
        forall|k: Seq<char>| #[trigger] n.manifest@.contains_key(k) ==> storable_name(k),
    ensures
        out.1 == save_action(o.config, n.manifest),
        manifest_of_text(render_pairs(n.manifest.sorted_pairs())).contains_key(o.current().name@),
        manifest_of_text(render_pairs(n.manifest.sorted_pairs()))[o.current().name@] == o.current().mtime,
{
    lemma_manifest_roundtrip(n.manifest);
}

/// A subdirectory is skipped only when the manifest records exactly its
/// current modification time (and the backup is neither full nor forces it):
/// one that was modified since the last backup, or never backed up, is
/// copied to `<dest>/<name>`, announced and not counted as skipped.
pub proof fn lemma_modified_entry_copied(o: SourceBackup, n: SourceBackup, out: (Seq<NoticeView>, ActionView))
    requires
        o.wf(),
        o.phase is AwaitInterruptCheck,
        o.manifest@.contains_key(o.current().name@) ==> o.manifest@[o.current().name@] != o.current().mtime,
        transition(o, BackupEvent::Interrupted(false), n, out),
    ensures
        out.1 == ActionView::Copy(
            backup_copy(o.config, o.current().path@, slash_join(o.config.dest_path@, o.current().name@)),
        ),
        out.0 == seq![NoticeView::Copying(o.current().name@)],
        n.skipped == o.skipped,
        n.index == o.index,
{
}

/// Whenever a subdirectory is skipped rather than copied, the manifest
/// records exactly its current modification time, and the backup is
/// incremental.
pub proof fn lemma_skip_needs_recorded_time(o: SourceBackup, n: SourceBackup, out: (Seq<NoticeView>, ActionView))
    requires
        o.wf(),
        o.phase is AwaitInterruptCheck,
        transition(o, BackupEvent::Interrupted(false), n, out),
        !(out.1 is Copy),
    ensures
        !o.config.request.full,
        o.manifest@.contains_key(o.current().name@),
        o.manifest@[o.current().name@] == o.current().mtime,
{
}

/// A source kept as a directory whose recorded time differs from its
/// current one (or that has none) is never skipped as unchanged.
pub proof fn lemma_modified_dir_not_skipped(
    o: SourceBackup,
    mtime: u64,
    has_files: bool,
    n: SourceBackup,
    out: (Seq<NoticeView>, ActionView),
)
    requires
        o.wf(),
        o.phase == (Phase::AwaitDestFiles { mtime }),
        o.manifest@.contains_key(o.dir_name@) ==> o.manifest@[o.dir_name@] != mtime,
        transition(o, BackupEvent::DestHasFiles(has_files), n, out),
    ensures
        !(n.phase is Done),
        !(out.1 is Finish),
{
}

/// Every copy of a source kept as a directory copies the expanded source to
/// `<dest>/<directory name>`, whichever step leads to it (after the change
/// check, or after the size check finds it large enough).
pub proof fn lemma_keep_dir_copy_target(
    o: SourceBackup,
    ev: BackupEvent,
    n: SourceBackup,
    out: (Seq<NoticeView>, ActionView),
)
    requires
        o.wf(),
        o.config.request.keep_dir,
        transition(o, ev, n, out),
        out.1 is Copy,
    ensures
        out.1 == ActionView::Copy(
            backup_copy(o.config, o.config.source_path@, slash_join(o.config.dest_path@, o.dir_name@)),
        ),
{
}

} // verus!
