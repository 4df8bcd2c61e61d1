//! One `rclone copy` run: its options and the command line they make.
use vstd::prelude::*;
use crate::number::{decimal, format_u64};
use crate::paths::{tilde_expansion, opt_view, current_home, expand_tilde_with};
use crate::text::{chars_of, string_from_chars, concat, string_views, clone_strings, lit};

verus! {

/// What to copy where, and how.
#[derive(Debug, PartialEq, Eq)]
pub struct CopyOpts {
    /// Source path (a leading `~` is expanded when the copy runs).
    pub src: String,
    /// Destination path (a leading `~` is expanded when the copy runs).
    pub dst: String,
    /// Parallel checkers and transfers; rclone's own defaults when `None`.
    pub checkers: Option<u32>,
    /// Skip files that are newer at the destination.
    pub update: bool,
    /// Keep going past errors (for NTFS destinations).
    pub ntfs: bool,
    /// Do not follow symbolic links.
    pub skip_links: bool,
    /// rclone `--exclude` patterns.
    pub exclude: Vec<String>,
}

/// The options of a copy as plain values.
pub struct CopyView {
    pub src: Seq<char>,
    pub dst: Seq<char>,
    pub checkers: Option<u32>,
    pub update: bool,
    pub ntfs: bool,
    pub skip_links: bool,
    pub exclude: Seq<Seq<char>>,
}

impl View for CopyOpts {
    type V = CopyView;

    open spec fn view(&self) -> CopyView {
        CopyView {
            src: self.src@,
            dst: self.dst@,
            checkers: self.checkers,
            update: self.update,
            ntfs: self.ntfs,
            skip_links: self.skip_links,
            exclude: string_views(self.exclude@),
        }
    }
}

impl CopyOpts {
    /// Copies `src` to `dst` with every option off.
    pub fn new(src: &str, dst: &str) -> (o: Self)
        ensures
            o.src@ == src@,
            o.dst@ == dst@,
            o.checkers is None,
            !o.update,
            !o.ntfs,
            !o.skip_links,
            o.exclude@.len() == 0,
    {
        CopyOpts {
            src: src.to_owned(),
            dst: dst.to_owned(),
            checkers: None,
            update: false,
            ntfs: false,
            skip_links: false,
            exclude: Vec::new(),
        }
    }

    /// Sets the number of parallel checkers and transfers.
    pub fn checkers(self, n: u32) -> (o: Self)
        ensures
            o == (CopyOpts { checkers: Some(n), ..self }),
    {
        CopyOpts { checkers: Some(n), ..self }
    }

    /// Turns `--update` on or off.
    pub fn update(self, on: bool) -> (o: Self)
        ensures
            o == (CopyOpts { update: on, ..self }),
    {
        CopyOpts { update: on, ..self }
    }

    /// Turns `--ignore-errors` on or off.
    pub fn ntfs(self, on: bool) -> (o: Self)
        ensures
            o == (CopyOpts { ntfs: on, ..self }),
    {
        CopyOpts { ntfs: on, ..self }
    }

    /// Turns `--skip-links` on or off.
    pub fn skip_links(self, on: bool) -> (o: Self)
        ensures
            o == (CopyOpts { skip_links: on, ..self }),
    {
        CopyOpts { skip_links: on, ..self }
    }

    /// Sets the `--exclude` patterns.
    pub fn exclude(self, patterns: &[String]) -> (o: Self)
        ensures
            o == (CopyOpts { exclude: o.exclude, ..self }),
            o.exclude@ == patterns@,
    {
        let exclude = clone_strings(patterns);
        CopyOpts { exclude, ..self }
    }
}

/// The `--exclude` arguments for the patterns `p`, in order.
pub open spec fn exclude_args(p: Seq<Seq<char>>) -> Seq<Seq<char>>
    decreases p.len(),
{
    if p.len() == 0 {
        Seq::empty()
    } else {
        exclude_args(p.drop_last()) + seq!["--exclude"@, p.last()]
    }
}

/// Every exclude pattern gets its own `--exclude` flag: the arguments are
/// the pairs `--exclude`, pattern, one pair per pattern, in order.
pub proof fn lemma_exclude_args_pairs(p: Seq<Seq<char>>)
    ensures
        exclude_args(p).len() == 2 * p.len(),
        forall|k: int| 0 <= k < p.len() ==> #[trigger] exclude_args(p)[2 * k] =~= "--exclude"@,
        forall|k: int| 0 <= k < p.len() ==> exclude_args(p)[2 * k + 1] == #[trigger] p[k],
    decreases p.len(),
{
    if p.len() > 0 {
        let q = p.drop_last();
        lemma_exclude_args_pairs(q);
        let a = exclude_args(q);
        let e = exclude_args(p);
        assert(e == a + seq!["--exclude"@, p.last()]);
        assert(e.len() == 2 * p.len());
        assert forall|k: int| 0 <= k < p.len() implies #[trigger] exclude_args(p)[2 * k] =~= "--exclude"@ by {
            if k < q.len() {
                assert(e[2 * k] == a[2 * k]);
            } else {
                assert(e[2 * k] == "--exclude"@);
            }
        }
        assert forall|k: int| 0 <= k < p.len() implies exclude_args(p)[2 * k + 1] == #[trigger] p[k] by {
            if k < q.len() {
                assert(q[k] == p[k]);
                assert(e[2 * k] == a[2 * k]);
                assert(e[2 * k + 1] == a[2 * k + 1]);
            } else {
                assert(k == q.len());
                assert(e[2 * k] == "--exclude"@);
                assert(e[2 * k + 1] == p.last());
            }
        }
    }
}

/// The arguments of `rclone` for copying `src` to `dst` (both already
/// expanded) with the given options.
pub open spec fn rclone_args(
    src: Seq<char>,
    dst: Seq<char>,
    checkers: Option<u32>,
    update: bool,
    ntfs: bool,
    skip_links: bool,
    exclude: Seq<Seq<char>>,
) -> Seq<Seq<char>> {
    seq!["copy"@, src, dst, "--progress"@, "--stats=1s"@] + (match checkers {
        Some(n) => seq![
            "--checkers="@ + decimal(n as nat),
            "--transfers="@ + decimal(n as nat),
        ],
        None => Seq::empty(),
    }) + (if update {
        seq!["--update"@]
    } else {
        Seq::empty()
    }) + seq!["--verbose"@] + (if skip_links {
        seq!["--skip-links"@]
    } else {
        Seq::empty()
    }) + (if ntfs {
        seq!["--ignore-errors"@]
    } else {
        Seq::empty()
    }) + exclude_args(exclude)
}

/// A copy ready to run: the expanded destination (created before copying and
/// handed to the owner after) and `rclone`'s arguments.
#[derive(Debug, PartialEq, Eq)]
pub struct CopyCommand {
    pub destination: String,
    pub args: Vec<String>,
}

/// The command for `o` with paths expanded against the home directory `home`.
pub open spec fn copy_command_for(o: CopyOpts, home: Option<Seq<char>>, c: CopyCommand) -> bool {
    let src = tilde_expansion(o.src@, home);
    let dst = tilde_expansion(o.dst@, home);
    &&& c.destination@ == dst
    &&& string_views(c.args@) == rclone_args(
        src,
        dst,
        o.checkers,
        o.update,
        o.ntfs,
        o.skip_links,
        string_views(o.exclude@),
    )
}

fn push_lit(args: &mut Vec<String>, s: &str)
    ensures
        string_views(final(args)@) == string_views(old(args)@).push(s@),
{
    args.push(lit(s));
    assert(string_views(args@) =~= string_views(old(args)@).push(s@));
}

fn push_string(args: &mut Vec<String>, s: String)
    ensures
        string_views(final(args)@) == string_views(old(args)@).push(s@),
{
    let ghost v = s@;
    args.push(s);
    assert(string_views(args@) =~= string_views(old(args)@).push(v));
}

fn push_flag_number(args: &mut Vec<String>, flag: &str, n: u32)
    ensures
        string_views(final(args)@) == string_views(old(args)@).push(flag@ + decimal(n as nat)),
{
    let f = chars_of(flag);
    let d = format_u64(n as u64);
    let c = concat(f.as_slice(), d.as_slice());
    args.push(string_from_chars(c.as_slice()));
    assert(string_views(args@) =~= string_views(old(args)@).push(flag@ + decimal(n as nat)));
}

/// The command line ends with one `--exclude` flag per exclude pattern,
/// each followed by its pattern, in the order the patterns were given.
pub proof fn lemma_each_exclude_flagged(o: CopyOpts, home: Option<Seq<char>>, c: CopyCommand)
    requires
        copy_command_for(o, home, c),
    ensures
        string_views(c.args@).len() >= 2 * o.exclude@.len(),
        forall|j: int|
            0 <= j < o.exclude@.len() ==> string_views(c.args@)[string_views(c.args@).len() - 2
                * o.exclude@.len() + 2 * j] =~= "--exclude"@ && string_views(c.args@)[string_views(
                c.args@,
            ).len() - 2 * o.exclude@.len() + 2 * j + 1] == (#[trigger] o.exclude@[j])@,
{
    let p = string_views(o.exclude@);
    lemma_exclude_args_pairs(p);
    let a = string_views(c.args@);
    let k = o.exclude@.len();
    let e = exclude_args(p);
    let head = a.take(a.len() - e.len());
    assert(a =~= head + e);
    assert forall|j: int| 0 <= j < k implies a[a.len() - 2 * k + 2 * j] =~= "--exclude"@ && a[a.len() - 2 * k + 2
        * j + 1] == (#[trigger] o.exclude@[j])@ by {
        assert(p[j] == o.exclude@[j]@);
        assert(a[a.len() - 2 * k + 2 * j] == e[2 * j]);
        assert(a[a.len() - 2 * k + 2 * j + 1] == e[2 * j + 1]);
    }
}

/// The command line of the copy, with a leading `~` of either path expanded
/// against the home directory `home`.
pub fn copy_command_with(o: &CopyOpts, home: &Option<String>) -> (c: CopyCommand)
    ensures
        copy_command_for(*o, opt_view(*home), c),
{
    let src = expand_tilde_with(chars_of(o.src.as_str()).as_slice(), home);
    let dst = expand_tilde_with(chars_of(o.dst.as_str()).as_slice(), home);
    let mut args: Vec<String> = Vec::new();
    push_lit(&mut args, "copy");
    push_string(&mut args, string_from_chars(src.as_slice()));
    push_string(&mut args, string_from_chars(dst.as_slice()));
    push_lit(&mut args, "--progress");
    push_lit(&mut args, "--stats=1s");
    let ghost a0 = string_views(args@);
    assert(a0 =~= seq!["copy"@, src@, dst@, "--progress"@, "--stats=1s"@]);
    match o.checkers {
        Some(n) => {
            push_flag_number(&mut args, "--checkers=", n);
            push_flag_number(&mut args, "--transfers=", n);
        },
        None => {},
    }
    let ghost a1 = string_views(args@);
    if o.update {
        push_lit(&mut args, "--update");
    }
    let ghost a2 = string_views(args@);
    push_lit(&mut args, "--verbose");
    let ghost a3 = string_views(args@);
    if o.skip_links {
        push_lit(&mut args, "--skip-links");
    }
    let ghost a4 = string_views(args@);
    if o.ntfs {
        push_lit(&mut args, "--ignore-errors");
    }
    let ghost a5 = string_views(args@);
    let mut i: usize = 0;
    while i < o.exclude.len()
        invariant
            i <= o.exclude@.len(),
            string_views(args@) == a5 + exclude_args(string_views(o.exclude@).take(i as int)),
        decreases o.exclude@.len() - i,
    {
        push_lit(&mut args, "--exclude");
        push_string(&mut args, o.exclude[i].clone());
        proof {
            let p = string_views(o.exclude@);
            assert(p.take(i + 1).drop_last() =~= p.take(i as int));
            assert(string_views(args@) =~= a5 + exclude_args(p.take(i + 1)));
        }
        i = i + 1;
    }
    proof {
        assert(string_views(o.exclude@).take(o.exclude@.len() as int) =~= string_views(o.exclude@));
        assert(string_views(args@) =~= rclone_args(
            src@,
            dst@,
            o.checkers,
            o.update,
            o.ntfs,
            o.skip_links,
            string_views(o.exclude@),
        ));
    }
    CopyCommand { destination: string_from_chars(dst.as_slice()), args }
}

/// The command line of the copy (`copy_progress`'s argument list), with a
/// leading `~` of either path expanded to the home directory.
pub fn copy_command(o: &CopyOpts) -> (c: CopyCommand)
    ensures
        exists|home: Option<Seq<char>>|
            (home matches Some(h) ==> h.len() > 0) && #[trigger] copy_command_for(*o, home, c),
{
    let home = current_home();
    let c = copy_command_with(o, &home);
    assert(copy_command_for(*o, opt_view(home), c));
    c
}

} // verus!
