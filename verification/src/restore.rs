//! Restoring backed-up items. A restore (`RestoreSession`) is a state
//! machine: the caller performs each action it asks for (checking that the
//! backup destination exists, asking where to restore to, listing the items,
//! letting the user pick, listing an item's subdirectories, copying) and
//! hands back what came of it. Each item's copy is decided by `restore_item`.
use vstd::prelude::*;
use crate::copy::{CopyOpts, CopyView};
use crate::paths::{
    tilde_expansion, opt_view, path_file_name, path_strip_prefix, file_name_of, strip_path_prefix,
    current_home, expand_tilde_with,
};
use crate::text::{
    chars_of, string_from_chars, concat, trim, trim_chars, lines, string_views, lit, non_empty,
    non_empty_lines, clone_strings, lemma_non_empty_keeps_two, lemma_non_empty_of_blanks,
    lemma_non_empty_single,
};

verus! {

/// The single subdirectory listed, trimmed, when exactly one is listed.
pub open spec fn pick_subdir_spec(listing: Seq<char>) -> Option<Seq<char>> {
    let ls = non_empty(lines(listing));
    if ls.len() == 1 {
        Some(trim(ls[0]))
    } else {
        None
    }
}

/// Which subdirectory of a backed-up item to restore on its own
/// (`pick_subdir`), from the listing of its subdirectories (one per line):
/// the only one when there is exactly one; none when there are none or
/// several (then the whole item is restored).
pub fn pick_subdir(listing: &str) -> (r: Option<String>)
    ensures
        opt_view(r) == pick_subdir_spec(listing@),
{
    let ls = non_empty_lines(listing);
    if ls.len() == 1 {
        let t = trim_chars(chars_of(ls[0].as_str()).as_slice());
        Some(string_from_chars(t.as_slice()))
    } else {
        None
    }
}

/// `path` shown relative to the backup root when it lies below it, else
/// shown whole; and where it goes under `restore_dest`.
pub open spec fn restore_target_spec(
    path: Seq<char>,
    rel: Option<Seq<char>>,
    restore_dest: Seq<char>,
) -> (Seq<char>, Seq<char>) {
    let shown = match rel {
        Some(r) => r,
        None => path,
    };
    (shown, restore_dest + seq!['/'] + shown)
}

/// Where `path` is restored to, given its path relative to the backup root
/// (`None` when it does not lie below it): `(shown path, destination)`.
pub fn restore_target(path: &str, rel: Option<&str>, restore_dest: &str) -> (r: (String, String))
    ensures
        (r.0@, r.1@) == restore_target_spec(
            path@,
            match rel {
                Some(x) => Some(x@),
                None => None,
            },
            restore_dest@,
        ),
{
    let shown = match rel {
        Some(x) => chars_of(x),
        None => chars_of(path),
    };
    let mut d = chars_of(restore_dest);
    d.push('/');
    let d = concat(d.as_slice(), shown.as_slice());
    (string_from_chars(shown.as_slice()), string_from_chars(d.as_slice()))
}

/// One item's restore: the copy to run, the path shown for it, and, when a
/// single subdirectory is restored instead of the whole item, that
/// subdirectory's name.
#[derive(Debug, PartialEq, Eq)]
pub struct RestoreCopy {
    pub opts: CopyOpts,
    pub shown: String,
    pub single_subdir: Option<String>,
}

/// The restore of one item, `item`: the single listed
/// subdirectory if there is exactly one, else the item itself, copied to
/// `restore_dest` joined with its path relative to `backup_root`, without
/// `--update` (restored files replace local ones), with the `exclude`
/// patterns. Given as (the copy, the path shown for it, the single
/// subdirectory's name when one is restored on its own).
pub open spec fn restore_copy_spec(
    item: Seq<char>,
    backup_root: Seq<char>,
    restore_dest: Seq<char>,
    listing: Seq<char>,
    exclude: Seq<Seq<char>>,
) -> (CopyView, Seq<char>, Option<Seq<char>>) {
    let path = match pick_subdir_spec(listing) {
        Some(sub) => sub,
        None => item,
    };
    let (shown, dest) = restore_target_spec(path, path_strip_prefix(path, backup_root), restore_dest);
    let copy = CopyView {
        src: path,
        dst: dest,
        checkers: None,
        update: false,
        ntfs: false,
        skip_links: false,
        exclude,
    };
    let single = match pick_subdir_spec(listing) {
        Some(sub) => Some(
            match path_file_name(sub) {
                Some(n) => n,
                None => Seq::<char>::empty(),
            },
        ),
        None => None,
    };
    (copy, shown, single)
}

/// The restore of `item`, given the listing of its subdirectories.
pub fn restore_item(
    item: &str,
    backup_root: &str,
    restore_dest: &str,
    listing: &str,
    exclude: &[String],
) -> (r: RestoreCopy)
    ensures
        (r.opts@, r.shown@, opt_view(r.single_subdir)) == restore_copy_spec(
            item@,
            backup_root@,
            restore_dest@,
            listing@,
            string_views(exclude@),
        ),
{
    let sub = pick_subdir(listing);
    let (path, single_subdir) = match sub {
        Some(s) => {
            let name = match file_name_of(s.as_str()) {
                Some(n) => n,
                None => String::new(),
            };
            (s, Some(name))
        },
        None => (lit(item), None),
    };
    let rel = strip_path_prefix(path.as_str(), backup_root);
    let (shown, dest) = match &rel {
        Some(x) => restore_target(path.as_str(), Some(x.as_str()), restore_dest),
        None => restore_target(path.as_str(), None, restore_dest),
    };
    let opts = CopyOpts::new(path.as_str(), dest.as_str()).exclude(exclude);
    RestoreCopy { opts, shown, single_subdir }
}

/// Where to restore to: the default when the answer is blank, else the
/// trimmed answer with `~` expanded against `home`.
pub open spec fn restore_destination_spec(
    answer: Seq<char>,
    default_dest: Seq<char>,
    home: Option<Seq<char>>,
) -> Seq<char> {
    if trim(answer).len() == 0 {
        default_dest
    } else {
        tilde_expansion(trim(answer), home)
    }
}

/// Where to restore to, from the user's answer to the prompt, with `~`
/// expanded against the home directory `home`.
pub fn restore_destination_with(answer: &str, default_dest: &str, home: &Option<String>) -> (r: String)
    ensures
        r@ == restore_destination_spec(answer@, default_dest@, opt_view(*home)),
{
    let t = trim_chars(chars_of(answer).as_slice());
    if t.len() == 0 {
        lit(default_dest)
    } else {
        let x = expand_tilde_with(t.as_slice(), home);
        string_from_chars(x.as_slice())
    }
}

/// Where to restore to, from the user's answer to the prompt.
pub fn restore_destination(answer: &str, default_dest: &str) -> (r: String)
    ensures
        exists|home: Option<Seq<char>>|
            (home matches Some(h) ==> h.len() > 0) && r@ == #[trigger] restore_destination_spec(
                answer@,
                default_dest@,
                home,
            ),
{
    let home = current_home();
    restore_destination_with(answer, default_dest, &home)
}

/// Something to tell the user during a restore.
#[derive(Debug, PartialEq, Eq)]
pub enum RestoreNotice {
    /// The backup destination does not exist; nothing is restored.
    RootMissing(String),
    /// The backup destination holds no backed-up item.
    NoBackups(String),
    /// How many items the backup destination holds.
    Found { count: usize, root: String },
    /// Every item is restored, without asking.
    FullRestore,
    /// The user selected nothing; nothing is restored.
    NoneSelected,
    /// How many selected items are restored, and where to.
    Restoring { count: usize, dest: String },
    /// An item holds exactly one subdirectory, restored on its own.
    SingleSubdir(String),
    /// A copy begins: the path shown for it, and where it goes.
    Copying { shown: String, dst: String },
}

/// A restore notice as plain values.
pub enum RestoreNoticeView {
    RootMissing(Seq<char>),
    NoBackups(Seq<char>),
    Found(nat, Seq<char>),
    FullRestore,
    NoneSelected,
    Restoring(nat, Seq<char>),
    SingleSubdir(Seq<char>),
    Copying(Seq<char>, Seq<char>),
}

impl View for RestoreNotice {
    type V = RestoreNoticeView;

    open spec fn view(&self) -> RestoreNoticeView {
        match self {
            RestoreNotice::RootMissing(p) => RestoreNoticeView::RootMissing(p@),
            RestoreNotice::NoBackups(p) => RestoreNoticeView::NoBackups(p@),
            RestoreNotice::Found { count, root } => RestoreNoticeView::Found(*count as nat, root@),
            RestoreNotice::FullRestore => RestoreNoticeView::FullRestore,
            RestoreNotice::NoneSelected => RestoreNoticeView::NoneSelected,
            RestoreNotice::Restoring { count, dest } => RestoreNoticeView::Restoring(*count as nat, dest@),
            RestoreNotice::SingleSubdir(n) => RestoreNoticeView::SingleSubdir(n@),
            RestoreNotice::Copying { shown, dst } => RestoreNoticeView::Copying(shown@, dst@),
        }
    }
}

/// What the caller of a restore is to do next.
#[derive(Debug, PartialEq, Eq)]
pub enum RestoreAction {
    /// Tell whether this path exists.
    CheckExists(String),
    /// Ask the user where to restore to, offering this default.
    Prompt(String),
    /// List the backed-up items (the subdirectories of this directory, one
    /// path per line, sorted).
    ListItems(String),
    /// Let the user pick among these listed items (one per line).
    Select(String),
    /// List the subdirectories of this backed-up item, one path per line.
    ListSubdirs(String),
    /// Run this copy.
    Copy(CopyOpts),
    /// The restore is over, with this outcome.
    Finish(Result<(), String>),
}

/// A restore action as plain values.
pub enum RestoreActionView {
    CheckExists(Seq<char>),
    Prompt(Seq<char>),
    ListItems(Seq<char>),
    Select(Seq<char>),
    ListSubdirs(Seq<char>),
    Copy(CopyView),
    Finish(Result<(), Seq<char>>),
}

impl View for RestoreAction {
    type V = RestoreActionView;

    open spec fn view(&self) -> RestoreActionView {
        match self {
            RestoreAction::CheckExists(p) => RestoreActionView::CheckExists(p@),
            RestoreAction::Prompt(d) => RestoreActionView::Prompt(d@),
            RestoreAction::ListItems(p) => RestoreActionView::ListItems(p@),
            RestoreAction::Select(t) => RestoreActionView::Select(t@),
            RestoreAction::ListSubdirs(p) => RestoreActionView::ListSubdirs(p@),
            RestoreAction::Copy(o) => RestoreActionView::Copy(o@),
            RestoreAction::Finish(r) => RestoreActionView::Finish(
                match r {
                    Ok(()) => Ok(()),
                    Err(e) => Err(e@),
                },
            ),
        }
    }
}

/// The notices to show, then the action to perform.
#[derive(Debug, PartialEq, Eq)]
pub struct RestoreStep {
    pub notices: Vec<RestoreNotice>,
    pub action: RestoreAction,
}

impl View for RestoreStep {
    type V = (Seq<RestoreNoticeView>, RestoreActionView);

    open spec fn view(&self) -> (Seq<RestoreNoticeView>, RestoreActionView) {
        (self.notices@.map_values(|n: RestoreNotice| n@), self.action@)
    }
}

/// What the caller of a restore reports back.
#[derive(Debug, PartialEq, Eq)]
pub enum RestoreEvent {
    /// Whether the path exists.
    Exists(bool),
    /// The user's answer to the prompt, or why it could not be read.
    Answer(Result<String, String>),
    /// The listing of the backed-up items, or why it failed.
    Listing(Result<String, String>),
    /// The user's selection (one item per line), or why it failed.
    Selected(Result<String, String>),
    /// The listing of an item's subdirectories, or why it failed.
    SubdirListing(Result<String, String>),
    /// How the copy went.
    Copied(Result<(), String>),
}

/// Where a restore stands.
#[derive(Debug, PartialEq, Eq)]
pub enum RestorePhase {
    AwaitExists,
    AwaitAnswer,
    AwaitListing,
    AwaitSelection,
    AwaitSubdirs,
    AwaitCopy,
    Done,
}

/// The state of a restore (`run_restore`).
pub struct RestoreSession {
    /// The backup destination, as given.
    pub backup_dest: String,
    /// The rclone exclude patterns for every copy.
    pub exclude: Vec<String>,
    /// Restore every item without asking.
    pub full: bool,
    /// The home directory every `~` is expanded against.
    pub home: Option<String>,
    /// The backup destination with `~` expanded.
    pub backup_path: String,
    /// The default place to restore to (`~/Games`, expanded).
    pub default_dest: String,
    /// Where to restore to, once the user has answered.
    pub restore_dest: String,
    /// The items to restore, in order.
    pub items: Vec<String>,
    /// How many of `items` have been restored.
    pub index: usize,
    pub phase: RestorePhase,
}

/// The notices that announce the copy `c` (from `restore_copy_spec`).
pub open spec fn copy_notices(c: (CopyView, Seq<char>, Option<Seq<char>>)) -> Seq<RestoreNoticeView> {
    let announce = seq![RestoreNoticeView::Copying(c.1, c.0.dst)];
    match c.2 {
        Some(n) => seq![RestoreNoticeView::SingleSubdir(n)] + announce,
        None => announce,
    }
}

impl RestoreSession {
    /// The state is consistent: the paths were expanded against the home
    /// directory, and the position in the items is valid.
    pub open spec fn wf(self) -> bool {
        let home = opt_view(self.home);
        &&& self.home matches Some(h) ==> h@.len() > 0
        &&& self.backup_path@ == tilde_expansion(self.backup_dest@, home)
        &&& self.default_dest@ == tilde_expansion("~/Games"@, home)
        &&& self.index <= self.items@.len()
        &&& (self.phase is AwaitSubdirs || self.phase is AwaitCopy) ==> self.index < self.items@.len()
    }

    /// Whether `ev` answers the action the restore waits on.
    pub open spec fn accepts_spec(self, ev: RestoreEvent) -> bool {
        match self.phase {
            RestorePhase::AwaitExists => ev is Exists,
            RestorePhase::AwaitAnswer => ev is Answer,
            RestorePhase::AwaitListing => ev is Listing,
            RestorePhase::AwaitSelection => ev is Selected,
            RestorePhase::AwaitSubdirs => ev is SubdirListing,
            RestorePhase::AwaitCopy => ev is Copied,
            RestorePhase::Done => false,
        }
    }
}

/// Ending the restore with `r`, nothing else changed.
pub open spec fn restore_finish(
    o: RestoreSession,
    n: RestoreSession,
    out: (Seq<RestoreNoticeView>, RestoreActionView),
    notices: Seq<RestoreNoticeView>,
    r: Result<(), Seq<char>>,
) -> bool {
    &&& n == (RestoreSession { phase: n.phase, ..o })
    &&& n.phase is Done
    &&& out == (notices, RestoreActionView::Finish(r))
}

/// Taking `items` as the items to restore and asking for the first one's
/// subdirectories.
pub open spec fn restore_begin(
    o: RestoreSession,
    n: RestoreSession,
    out: (Seq<RestoreNoticeView>, RestoreActionView),
    notices: Seq<RestoreNoticeView>,
    items: Seq<Seq<char>>,
) -> bool {
    &&& n == (RestoreSession { items: n.items, index: 0, phase: n.phase, ..o })
    &&& string_views(n.items@) == items
    &&& n.phase is AwaitSubdirs
    &&& out == (notices, RestoreActionView::ListSubdirs(items[0]))
}

/// One step of a restore: from state `o`, on event `ev`, to state `n` with
/// output `out`.
pub open spec fn restore_transition(
    o: RestoreSession,
    ev: RestoreEvent,
    n: RestoreSession,
    out: (Seq<RestoreNoticeView>, RestoreActionView),
) -> bool {
    let none = Seq::<RestoreNoticeView>::empty();
    match o.phase {
        RestorePhase::AwaitExists => match ev {
            RestoreEvent::Exists(true) => {
                &&& n == (RestoreSession { phase: RestorePhase::AwaitAnswer, ..o })
                &&& out == (none, RestoreActionView::Prompt(o.default_dest@))
            },
            RestoreEvent::Exists(false) => restore_finish(
                o,
                n,
                out,
                seq![RestoreNoticeView::RootMissing(o.backup_path@)],
                Ok(()),
            ),
            _ => false,
        },
        RestorePhase::AwaitAnswer => match ev {
            RestoreEvent::Answer(Ok(a)) => {
                &&& n == (RestoreSession { restore_dest: n.restore_dest, phase: RestorePhase::AwaitListing, ..o })
                &&& n.restore_dest@ == restore_destination_spec(a@, o.default_dest@, opt_view(o.home))
                &&& out == (none, RestoreActionView::ListItems(o.backup_path@))
            },
            RestoreEvent::Answer(Err(e)) => restore_finish(o, n, out, none, Err(e@)),
            _ => false,
        },
        RestorePhase::AwaitListing => match ev {
            RestoreEvent::Listing(Ok(text)) => {
                let items = non_empty(lines(text@));
                let found = RestoreNoticeView::Found(items.len(), o.backup_path@);
                if items.len() == 0 {
                    restore_finish(o, n, out, seq![RestoreNoticeView::NoBackups(o.backup_path@)], Ok(()))
                } else if o.full {
                    restore_begin(o, n, out, seq![found, RestoreNoticeView::FullRestore], items)
                } else {
                    &&& n == (RestoreSession { phase: RestorePhase::AwaitSelection, ..o })
                    &&& out == (seq![found], RestoreActionView::Select(text@))
                }
            },
            RestoreEvent::Listing(Err(e)) => restore_finish(o, n, out, none, Err(e@)),
            _ => false,
        },
        RestorePhase::AwaitSelection => match ev {
            RestoreEvent::Selected(Ok(sel)) => {
                let items = non_empty(lines(sel@));
                if items.len() == 0 {
                    restore_finish(o, n, out, seq![RestoreNoticeView::NoneSelected], Ok(()))
                } else {
                    restore_begin(
                        o,
                        n,
                        out,
                        seq![RestoreNoticeView::Restoring(items.len(), o.restore_dest@)],
                        items,
                    )
                }
            },
            RestoreEvent::Selected(Err(e)) => restore_finish(o, n, out, none, Err(e@)),
            _ => false,
        },
        RestorePhase::AwaitSubdirs => match ev {
            RestoreEvent::SubdirListing(Ok(listing)) => {
                let c = restore_copy_spec(
                    o.items@[o.index as int]@,
                    o.backup_path@,
                    o.restore_dest@,
                    listing@,
                    string_views(o.exclude@),
                );
                &&& n == (RestoreSession { phase: RestorePhase::AwaitCopy, ..o })
                &&& out == (copy_notices(c), RestoreActionView::Copy(c.0))
            },
            RestoreEvent::SubdirListing(Err(e)) => restore_finish(o, n, out, none, Err(e@)),
            _ => false,
        },
        RestorePhase::AwaitCopy => match ev {
            RestoreEvent::Copied(Ok(())) => {
                &&& n == (RestoreSession { index: n.index, phase: n.phase, ..o })
                &&& n.index == o.index + 1
                &&& if n.index < n.items@.len() {
                    &&& n.phase is AwaitSubdirs
                    &&& out == (none, RestoreActionView::ListSubdirs(n.items@[n.index as int]@))
                } else {
                    &&& n.phase is Done
                    &&& out == (none, RestoreActionView::Finish(Ok(())))
                }
            },
            RestoreEvent::Copied(Err(e)) => restore_finish(o, n, out, none, Err(e@)),
            _ => false,
        },
        RestorePhase::Done => false,
    }
}

/// The views of a list of restore notices.
pub open spec fn notice_views(v: Seq<RestoreNotice>) -> Seq<RestoreNoticeView> {
    v.map_values(|n: RestoreNotice| n@)
}

impl RestoreSession {
    /// Begins restoring from `backup_dest`, with the rclone `exclude`
    /// patterns for every copy; `full` restores every item without asking.
    /// The home directory is looked up once, and every `~` is expanded
    /// against it. The first action checks that the backup destination exists.
    pub fn start(backup_dest: &str, exclude: &[String], full: bool) -> (r: (RestoreSession, RestoreStep))
        ensures
            r.0.wf(),
            r.0.backup_dest@ == backup_dest@,
            r.0.exclude@ == exclude@,
            r.0.full == full,
            r.0.items@.len() == 0,
            r.0.index == 0,
            r.0.phase is AwaitExists,
            r.1@ == (Seq::<RestoreNoticeView>::empty(), RestoreActionView::CheckExists(r.0.backup_path@)),
    {
        let home = current_home();
        let root = expand_tilde_with(chars_of(backup_dest).as_slice(), &home);
        let games = expand_tilde_with(chars_of("~/Games").as_slice(), &home);
        let backup_path = string_from_chars(root.as_slice());
        let action = RestoreAction::CheckExists(backup_path.clone());
        let session = RestoreSession {
            backup_dest: lit(backup_dest),
            exclude: clone_strings(exclude),
            full,
            home,
            backup_path,
            default_dest: string_from_chars(games.as_slice()),
            restore_dest: String::new(),
            items: Vec::new(),
            index: 0,
            phase: RestorePhase::AwaitExists,
        };
        let step = RestoreStep { notices: Vec::new(), action };
        assert(step@.0 =~= Seq::<RestoreNoticeView>::empty());
        (session, step)
    }

    /// Whether `ev` answers the action the restore waits on.
    pub fn accepts(&self, ev: &RestoreEvent) -> (r: bool)
        ensures
            r == self.accepts_spec(*ev),
    {
        match &self.phase {
            RestorePhase::AwaitExists => matches!(ev, RestoreEvent::Exists(_)),
            RestorePhase::AwaitAnswer => matches!(ev, RestoreEvent::Answer(_)),
            RestorePhase::AwaitListing => matches!(ev, RestoreEvent::Listing(_)),
            RestorePhase::AwaitSelection => matches!(ev, RestoreEvent::Selected(_)),
            RestorePhase::AwaitSubdirs => matches!(ev, RestoreEvent::SubdirListing(_)),
            RestorePhase::AwaitCopy => matches!(ev, RestoreEvent::Copied(_)),
            RestorePhase::Done => false,
        }
    }

    fn finish_with(&mut self, notices: Vec<RestoreNotice>, r: Result<(), String>) -> (s: RestoreStep)
        ensures
            restore_finish(*old(self), *final(self), s@, notice_views(notices@), match r {
                Ok(()) => Ok(()),
                Err(e) => Err(e@),
            }),
    {
        self.phase = RestorePhase::Done;
        RestoreStep { notices, action: RestoreAction::Finish(r) }
    }

    fn begin_items(&mut self, notices: Vec<RestoreNotice>, items: Vec<String>) -> (s: RestoreStep)
        requires
            items@.len() > 0,
        ensures
            restore_begin(*old(self), *final(self), s@, notice_views(notices@), string_views(items@)),
    {
        let first = lit(items[0].as_str());
        self.items = items;
        self.index = 0;
        self.phase = RestorePhase::AwaitSubdirs;
        RestoreStep { notices, action: RestoreAction::ListSubdirs(first) }
    }

    /// Advances the restore on the answer `ev` to the last action.
    pub fn step(&mut self, ev: RestoreEvent) -> (s: RestoreStep)
        requires
            old(self).wf(),
            old(self).accepts_spec(ev),
        ensures
            final(self).wf(),
            restore_transition(*old(self), ev, *final(self), s@),
    {
        let ghost none = Seq::<RestoreNoticeView>::empty();
        match ev {
            RestoreEvent::Exists(found) => {
                if found {
                    self.phase = RestorePhase::AwaitAnswer;
                    let s = RestoreStep { notices: Vec::new(), action: RestoreAction::Prompt(self.default_dest.clone()) };
                    assert(s@.0 =~= none);
                    s
                } else {
                    let notices = vec![RestoreNotice::RootMissing(self.backup_path.clone())];
                    let s = self.finish_with(notices, Ok(()));
                    assert(notice_views(notices@) =~= seq![RestoreNoticeView::RootMissing(self.backup_path@)]);
                    s
                }
            },
            RestoreEvent::Answer(Ok(a)) => {
                self.restore_dest = restore_destination_with(a.as_str(), self.default_dest.as_str(), &self.home);
                self.phase = RestorePhase::AwaitListing;
                let s = RestoreStep { notices: Vec::new(), action: RestoreAction::ListItems(self.backup_path.clone()) };
                assert(s@.0 =~= none);
                s
            },
            RestoreEvent::Answer(Err(e)) => {
                let s = self.finish_with(Vec::new(), Err(e));
                assert(notice_views(Seq::<RestoreNotice>::empty()) =~= none);
                s
            },
            RestoreEvent::Listing(Ok(text)) => {
                let items = non_empty_lines(text.as_str());
                if items.len() == 0 {
                    let notices = vec![RestoreNotice::NoBackups(self.backup_path.clone())];
                    assert(notice_views(notices@) =~= seq![RestoreNoticeView::NoBackups(self.backup_path@)]);
                    self.finish_with(notices, Ok(()))
                } else {
                    let found = RestoreNotice::Found { count: items.len(), root: self.backup_path.clone() };
                    if self.full {
                        let notices = vec![found, RestoreNotice::FullRestore];
                        assert(notice_views(notices@) =~= seq![
                            RestoreNoticeView::Found(string_views(items@).len(), self.backup_path@),
                            RestoreNoticeView::FullRestore,
                        ]);
                        self.begin_items(notices, items)
                    } else {
                        self.phase = RestorePhase::AwaitSelection;
                        let notices = vec![found];
                        assert(notice_views(notices@) =~= seq![
                            RestoreNoticeView::Found(string_views(items@).len(), self.backup_path@),
                        ]);
                        RestoreStep { notices, action: RestoreAction::Select(text) }
                    }
                }
            },
            RestoreEvent::Listing(Err(e)) => {
                assert(notice_views(Seq::<RestoreNotice>::empty()) =~= none);
                self.finish_with(Vec::new(), Err(e))
            },
            RestoreEvent::Selected(Ok(sel)) => {
                let items = non_empty_lines(sel.as_str());
                if items.len() == 0 {
                    let notices = vec![RestoreNotice::NoneSelected];
                    assert(notice_views(notices@) =~= seq![RestoreNoticeView::NoneSelected]);
                    self.finish_with(notices, Ok(()))
                } else {
                    let notices = vec![RestoreNotice::Restoring { count: items.len(), dest: self.restore_dest.clone() }];
                    assert(notice_views(notices@) =~= seq![
                        RestoreNoticeView::Restoring(string_views(items@).len(), self.restore_dest@),
                    ]);
                    self.begin_items(notices, items)
                }
            },
            RestoreEvent::Selected(Err(e)) => {
                assert(notice_views(Seq::<RestoreNotice>::empty()) =~= none);
                self.finish_with(Vec::new(), Err(e))
            },
            RestoreEvent::SubdirListing(Ok(listing)) => {
                let r = restore_item(
                    self.items[self.index].as_str(),
                    self.backup_path.as_str(),
                    self.restore_dest.as_str(),
                    listing.as_str(),
                    self.exclude.as_slice(),
                );
                let RestoreCopy { opts, shown, single_subdir } = r;
                let announce = RestoreNotice::Copying { shown, dst: opts.dst.clone() };
                let notices = match single_subdir {
                    Some(n) => vec![RestoreNotice::SingleSubdir(n), announce],
                    None => vec![announce],
                };
                let ghost c = restore_copy_spec(
                    self.items@[self.index as int]@,
                    self.backup_path@,
                    self.restore_dest@,
                    listing@,
                    string_views(self.exclude@),
                );
                assert(notice_views(notices@) =~= copy_notices(c));
                self.phase = RestorePhase::AwaitCopy;
                RestoreStep { notices, action: RestoreAction::Copy(opts) }
            },
            RestoreEvent::SubdirListing(Err(e)) => {
                assert(notice_views(Seq::<RestoreNotice>::empty()) =~= none);
                self.finish_with(Vec::new(), Err(e))
            },
            RestoreEvent::Copied(Ok(())) => {
                assert(self.phase is AwaitCopy);
                let len = self.items.len();
                assert(self.index < len);
                self.index = self.index + 1;
                if self.index < self.items.len() {
                    self.phase = RestorePhase::AwaitSubdirs;
                    let next = lit(self.items[self.index].as_str());
                    let s = RestoreStep { notices: Vec::new(), action: RestoreAction::ListSubdirs(next) };
                    assert(s@.0 =~= none);
                    s
                } else {
                    self.phase = RestorePhase::Done;
                    let s = RestoreStep { notices: Vec::new(), action: RestoreAction::Finish(Ok(())) };
                    assert(s@.0 =~= none);
                    s
                }
            },
            RestoreEvent::Copied(Err(e)) => {
                assert(notice_views(Seq::<RestoreNotice>::empty()) =~= none);
                self.finish_with(Vec::new(), Err(e))
            },
        }
    }
}

/// When the backup destination does not exist, the restore ends at once,
/// without asking the user anything.
pub proof fn lemma_missing_root_stops(o: RestoreSession, n: RestoreSession, out: (Seq<RestoreNoticeView>, RestoreActionView))
    requires
        o.phase is AwaitExists,
        restore_transition(o, RestoreEvent::Exists(false), n, out),
    ensures
        n.phase is Done,
        out.1 == RestoreActionView::Finish(Ok(())),
{
}

/// When nothing is listed, the restore ends without offering a selection;
/// when nothing is selected, it ends without copying.
pub proof fn lemma_nothing_to_restore_stops(
    o: RestoreSession,
    ev: RestoreEvent,
    text: String,
    n: RestoreSession,
    out: (Seq<RestoreNoticeView>, RestoreActionView),
)
    requires
        (o.phase is AwaitListing && ev == RestoreEvent::Listing(Ok(text)))
            || (o.phase is AwaitSelection && ev == RestoreEvent::Selected(Ok(text))),
        non_empty(lines(text@)).len() == 0,
        restore_transition(o, ev, n, out),
    ensures
        n.phase is Done,
        out.1 == RestoreActionView::Finish(Ok(())),
{
}

/// A full restore takes every listed item, in listing order; otherwise the
/// items are exactly those selected, in order. Either way the first item is
/// the first dealt with.
pub proof fn lemma_items_restored(
    o: RestoreSession,
    ev: RestoreEvent,
    text: String,
    n: RestoreSession,
    out: (Seq<RestoreNoticeView>, RestoreActionView),
)
    requires
        (o.phase is AwaitListing && o.full && ev == RestoreEvent::Listing(Ok(text)))
            || (o.phase is AwaitSelection && ev == RestoreEvent::Selected(Ok(text))),
        non_empty(lines(text@)).len() > 0,
        restore_transition(o, ev, n, out),
    ensures
        string_views(n.items@) == non_empty(lines(text@)),
        n.index == 0,
        out.1 == RestoreActionView::ListSubdirs(non_empty(lines(text@))[0]),
{
}

/// Each item is restored as `restore_item` decides from its listing.
pub proof fn lemma_copy_is_restore_item(
    o: RestoreSession,
    listing: String,
    n: RestoreSession,
    out: (Seq<RestoreNoticeView>, RestoreActionView),
)
    requires
        o.phase is AwaitSubdirs,
        restore_transition(o, RestoreEvent::SubdirListing(Ok(listing)), n, out),
    ensures
        out.1 == RestoreActionView::Copy(
            restore_copy_spec(
                o.items@[o.index as int]@,
                o.backup_path@,
                o.restore_dest@,
                listing@,
                string_views(o.exclude@),
            ).0,
        ),
{
}

/// After a successful copy the next item in order is dealt with, or the
/// restore ends successfully after the last one.
pub proof fn lemma_items_in_order(o: RestoreSession, n: RestoreSession, out: (Seq<RestoreNoticeView>, RestoreActionView))
    requires
        o.wf(),
        o.phase is AwaitCopy,
        restore_transition(o, RestoreEvent::Copied(Ok(())), n, out),
    ensures
        n.items == o.items,
        n.index == o.index + 1,
        o.index + 1 < o.items@.len() ==> out.1 == RestoreActionView::ListSubdirs(o.items@[o.index + 1]@),
        o.index + 1 == o.items@.len() ==> out.1 == RestoreActionView::Finish(Ok(())),
{
}

/// A failed read, listing, selection or copy ends the restore with that error.
pub proof fn lemma_failure_stops(
    o: RestoreSession,
    ev: RestoreEvent,
    e: String,
    n: RestoreSession,
    out: (Seq<RestoreNoticeView>, RestoreActionView),
)
    requires
        ev == RestoreEvent::Answer(Err(e)) || ev == RestoreEvent::Listing(Err(e))
            || ev == RestoreEvent::Selected(Err(e)) || ev == RestoreEvent::SubdirListing(Err(e))
            || ev == RestoreEvent::Copied(Err(e)),
        o.accepts_spec(ev),
        restore_transition(o, ev, n, out),
    ensures
        n.phase is Done,
        out.1 == RestoreActionView::Finish(Err(e@)),
{
}

/// When an item holds two or more subdirectories (two non-blank lines in its
/// listing), the whole item is restored: no single subdirectory is picked,
/// the copy's source is the item itself, and no subdirectory is announced.
pub proof fn lemma_several_subdirs_restore_whole_item(
    item: Seq<char>,
    backup_root: Seq<char>,
    restore_dest: Seq<char>,
    listing: Seq<char>,
    exclude: Seq<Seq<char>>,
    i: int,
    j: int,
)
    requires
        0 <= i < j < lines(listing).len(),
        lines(listing)[i].len() > 0,
        lines(listing)[j].len() > 0,
    ensures
        pick_subdir_spec(listing) is None,
        restore_copy_spec(item, backup_root, restore_dest, listing, exclude).0.src == item,
        restore_copy_spec(item, backup_root, restore_dest, listing, exclude).2 is None,
{
    lemma_non_empty_keeps_two(lines(listing), i, j);
}

/// When an item holds no subdirectory (no non-blank line in its listing),
/// the whole item is restored.
pub proof fn lemma_no_subdir_restores_whole_item(
    item: Seq<char>,
    backup_root: Seq<char>,
    restore_dest: Seq<char>,
    listing: Seq<char>,
    exclude: Seq<Seq<char>>,
)
    requires
        forall|k: int| 0 <= k < lines(listing).len() ==> (#[trigger] lines(listing)[k]).len() == 0,
    ensures
        pick_subdir_spec(listing) is None,
        restore_copy_spec(item, backup_root, restore_dest, listing, exclude).0.src == item,
        restore_copy_spec(item, backup_root, restore_dest, listing, exclude).2 is None,
{
    lemma_non_empty_of_blanks(lines(listing));
}

/// When an item holds exactly one subdirectory (one non-blank line, at `i`),
/// that subdirectory, trimmed, is restored on its own.
pub proof fn lemma_single_subdir_restored_alone(
    item: Seq<char>,
    backup_root: Seq<char>,
    restore_dest: Seq<char>,
    listing: Seq<char>,
    exclude: Seq<Seq<char>>,
    i: int,
)
    requires
        0 <= i < lines(listing).len(),
        lines(listing)[i].len() > 0,
        forall|k: int| 0 <= k < lines(listing).len() && k != i ==> (#[trigger] lines(listing)[k]).len() == 0,
    ensures
        pick_subdir_spec(listing) == Some(trim(lines(listing)[i])),
        restore_copy_spec(item, backup_root, restore_dest, listing, exclude).0.src == trim(lines(listing)[i]),
        restore_copy_spec(item, backup_root, restore_dest, listing, exclude).2 is Some,
{
    lemma_non_empty_single(lines(listing), i);
}

} // verus!
