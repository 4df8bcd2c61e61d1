//! Decisions about the machine the tool runs on: how parallel the
//! destination disk allows copies to be, where per-machine backups go, and
//! how missing programs get installed.
use vstd::prelude::*;
use crate::paths::{tilde_expansion, opt_view, current_home, expand_tilde_with};
use crate::text::{
    chars_of, string_from_chars, concat, chars_eq, starts_with, has_prefix, trim, trim_chars,
    trim_start_matches, trim_end_matches, trim_start_matching, trim_end_matching, lines,
    split_lines, views, string_views, lit, copy_range, seq_join, join_strings,
};

verus! {

/// The next step in finding the destination disk's parallelism.
#[derive(Debug, PartialEq, Eq)]
pub enum ProbeAction {
    /// Run `df` on this (expanded) path and report its output, if it succeeded.
    RunDf(String),
    /// Run `lsblk` for the parent of this device and report its output, if it succeeded.
    RunLsblk(String),
    /// Read `/sys/block/<this>/queue/rotational` and report its text, if it could be read.
    ReadRotational(String),
    /// The number of parallel checkers to use.
    Done(u32),
}

/// A probe step as plain values.
pub enum ProbeView {
    RunDf(Seq<char>),
    RunLsblk(Seq<char>),
    ReadRotational(Seq<char>),
    Done(u32),
}

impl View for ProbeAction {
    type V = ProbeView;

    open spec fn view(&self) -> ProbeView {
        match self {
            ProbeAction::RunDf(p) => ProbeView::RunDf(p@),
            ProbeAction::RunLsblk(d) => ProbeView::RunLsblk(d@),
            ProbeAction::ReadRotational(p) => ProbeView::ReadRotational(p@),
            ProbeAction::Done(n) => ProbeView::Done(*n),
        }
    }
}

/// The parallelism when nothing better is known (a typical SSD).
pub open spec fn default_checkers() -> u32 {
    8
}

/// After `df`: give up on failure, on an empty, header-only or `tmpfs`
/// device; otherwise look up the device's parent.
pub open spec fn after_df(df_output: Option<Seq<char>>) -> ProbeView {
    match df_output {
        None => ProbeView::Done(8),
        Some(out) => {
            let dev = trim(out);
            if dev.len() == 0 || dev == "Filesystem"@ || has_prefix(dev, "tmpfs"@) {
                ProbeView::Done(8)
            } else {
                ProbeView::RunLsblk(dev)
            }
        },
    }
}

/// The parent disk of `dev`: `lsblk`'s answer, or else the device name
/// without its `/dev/` prefixes.
pub open spec fn parent_disk(dev: Seq<char>, lsblk_output: Option<Seq<char>>) -> Seq<char> {
    match lsblk_output {
        Some(out) => trim(out),
        None => trim_start_matches(dev, "/dev/"@),
    }
}

/// After `lsblk`: an NVMe disk takes 16; otherwise ask whether it rotates.
pub open spec fn after_lsblk(dev: Seq<char>, lsblk_output: Option<Seq<char>>) -> ProbeView {
    let parent = parent_disk(dev, lsblk_output);
    if has_prefix(parent, "nvme"@) {
        ProbeView::Done(16)
    } else {
        ProbeView::ReadRotational(parent)
    }
}

/// After reading the rotational flag: a spinning disk takes 3, anything else 8.
pub open spec fn after_rotational(content: Option<Seq<char>>) -> u32 {
    match content {
        Some(c) => if trim(c) == "1"@ {
            3
        } else {
            8
        },
        None => 8,
    }
}

/// The first probe step for the destination `dest` (`detect_checkers`),
/// with a leading `~` expanded to the home directory.
pub fn probe_start(dest: &str) -> (a: ProbeAction)
    ensures
        exists|home: Option<Seq<char>>|
            (home matches Some(h) ==> h.len() > 0) && a@ == ProbeView::RunDf(
                #[trigger] tilde_expansion(dest@, home),
            ),
{
    let home = current_home();
    let d = expand_tilde_with(chars_of(dest).as_slice(), &home);
    assert(d@ == tilde_expansion(dest@, opt_view(home)));
    ProbeAction::RunDf(string_from_chars(d.as_slice()))
}

/// The step after `df` reported `df_output` (`None` when it failed).
pub fn probe_after_df(df_output: Option<&str>) -> (a: ProbeAction)
    ensures
        a@ == after_df(match df_output {
            Some(s) => Some(s@),
            None => None,
        }),
{
    match df_output {
        None => ProbeAction::Done(8),
        Some(out) => {
            let dev = trim_chars(chars_of(out).as_slice());
            let header = chars_of("Filesystem");
            let tmpfs = chars_of("tmpfs");
            if dev.len() == 0 || chars_eq(dev.as_slice(), header.as_slice()) || starts_with(
                dev.as_slice(),
                tmpfs.as_slice(),
            ) {
                ProbeAction::Done(8)
            } else {
                ProbeAction::RunLsblk(string_from_chars(dev.as_slice()))
            }
        },
    }
}

/// The step after `lsblk` for `dev` reported `lsblk_output` (`None` when it
/// failed).
pub fn probe_after_lsblk(dev: &str, lsblk_output: Option<&str>) -> (a: ProbeAction)
    ensures
        a@ == after_lsblk(dev@, match lsblk_output {
            Some(s) => Some(s@),
            None => None,
        }),
{
    let parent = match lsblk_output {
        Some(out) => trim_chars(chars_of(out).as_slice()),
        None => trim_start_matching(chars_of(dev).as_slice(), chars_of("/dev/").as_slice()),
    };
    if starts_with(parent.as_slice(), chars_of("nvme").as_slice()) {
        ProbeAction::Done(16)
    } else {
        ProbeAction::ReadRotational(string_from_chars(parent.as_slice()))
    }
}

/// The parallelism once the rotational flag reads `content` (`None` when it
/// could not be read).
pub fn probe_after_rotational(content: Option<&str>) -> (n: u32)
    ensures
        n == after_rotational(match content {
            Some(s) => Some(s@),
            None => None,
        }),
{
    match content {
        Some(c) => {
            let t = trim_chars(chars_of(c).as_slice());
            if chars_eq(t.as_slice(), chars_of("1").as_slice()) {
                3
            } else {
                8
            }
        },
        None => 8,
    }
}

/// Every outcome of the probe is 3, 8 or 16.
pub proof fn lemma_probe_outcomes(df: Option<Seq<char>>, dev: Seq<char>, lsblk: Option<Seq<char>>, rot: Option<Seq<char>>)
    ensures
        after_df(df) matches ProbeView::Done(n) ==> n == 8,
        after_lsblk(dev, lsblk) matches ProbeView::Done(n) ==> n == 16,
        after_rotational(rot) == 3 || after_rotational(rot) == 8,
{
}

/// The kind of disk that a parallelism stands for.
pub open spec fn disk_kind_spec(checkers: u32) -> Seq<char> {
    if checkers <= 3 {
        "HDD"@
    } else if checkers <= 8 {
        "SSD"@
    } else {
        "NVMe"@
    }
}

/// The kind of disk that a parallelism stands for (`run_backup`'s label).
pub fn disk_kind(checkers: u32) -> (s: String)
    ensures
        s@ == disk_kind_spec(checkers),
{
    if checkers <= 3 {
        lit("HDD")
    } else if checkers <= 8 {
        lit("SSD")
    } else {
        lit("NVMe")
    }
}

/// The distribution id in `/etc/os-release` text: the first line starting
/// with `ID=`, the rest of it without surrounding quotes.
pub open spec fn os_id_in(ls: Seq<Seq<char>>) -> Option<Seq<char>>
    decreases ls.len(),
{
    if ls.len() == 0 {
        None
    } else if has_prefix(ls[0], "ID="@) {
        Some(trim_end_matches(trim_start_matches(ls[0].skip(3), seq!['"']), seq!['"']))
    } else {
        os_id_in(ls.drop_first())
    }
}

/// The distribution id: from the `os-release` text when it
/// could be read and names one, else `linux`.
pub open spec fn os_id_spec(os_release: Option<Seq<char>>) -> Seq<char> {
    match os_release {
        Some(text) => match os_id_in(lines(text)) {
            Some(id) => id,
            None => "linux"@,
        },
        None => "linux"@,
    }
}

/// The distribution id named by `/etc/os-release` (`None`: not readable).
pub fn os_id(os_release: Option<&str>) -> (id: String)
    ensures
        id@ == os_id_spec(match os_release {
            Some(s) => Some(s@),
            None => None,
        }),
{
    match os_release {
        None => lit("linux"),
        Some(text) => {
            let ls = split_lines(chars_of(text).as_slice());
            let prefix = chars_of("ID=");
            let quote = vec!['"'];
            assert(quote@ =~= seq!['"']);
            let mut i: usize = 0;
            assert(views(ls@).skip(0) =~= views(ls@));
            while i < ls.len()
                invariant
                    i <= ls@.len(),
                    prefix@ == "ID="@,
                    os_release == Some(text),
                    quote@ == seq!['"'],
                    views(ls@) == lines(text@),
                    os_id_in(lines(text@)) == os_id_in(views(ls@).skip(i as int)),
                decreases ls@.len() - i,
            {
                let ghost rest = views(ls@).skip(i as int);
                assert(rest[0] == ls@[i as int]@);
                if starts_with(ls[i].as_slice(), prefix.as_slice()) {
                    proof {
                        reveal_strlit("ID=");
                    }
                    let v = copy_range(ls[i].as_slice(), 3, ls[i].len());
                    let v = trim_start_matching(v.as_slice(), quote.as_slice());
                    let v = trim_end_matching(v.as_slice(), quote.as_slice());
                    assert(ls@[i as int]@.skip(3) =~= ls@[i as int]@.subrange(3, ls@[i as int]@.len() as int));
                    return string_from_chars(v.as_slice());
                }
                assert(rest.drop_first() =~= views(ls@).skip(i + 1));
                i = i + 1;
            }
            lit("linux")
        },
    }
}

/// Where per-machine data goes: `<base>/<hostname>-<distribution>/<suffix>`,
/// with `unknown` when the host name could not be read.
pub open spec fn detect_path_spec(
    base: Seq<char>,
    suffix: Seq<char>,
    hostname: Option<Seq<char>>,
    os_release: Option<Seq<char>>,
) -> Seq<char> {
    let host = match hostname {
        Some(h) => h,
        None => "unknown"@,
    };
    base + seq!['/'] + host + seq!['-'] + os_id_spec(os_release) + seq!['/'] + suffix
}

/// The per-machine path for `suffix` under `base`, given what `hostname -s`
/// printed and the text of `/etc/os-release` (each `None` when unavailable).
pub fn detect_path(base: &str, suffix: &str, hostname: Option<&str>, os_release: Option<&str>) -> (p: String)
    ensures
        p@ == detect_path_spec(
            base@,
            suffix@,
            match hostname {
                Some(h) => Some(h@),
                None => None,
            },
            match os_release {
                Some(s) => Some(s@),
                None => None,
            },
        ),
{
    let host = match hostname {
        Some(h) => chars_of(h),
        None => chars_of("unknown"),
    };
    let id = os_id(os_release);
    let mut p = chars_of(base);
    p.push('/');
    let mut p = concat(p.as_slice(), host.as_slice());
    p.push('-');
    let mut p = concat(p.as_slice(), chars_of(id.as_str()).as_slice());
    p.push('/');
    let p = concat(p.as_slice(), chars_of(suffix).as_slice());
    string_from_chars(p.as_slice())
}

/// The programs the tool needs, in the order they are checked.
pub open spec fn dependencies() -> Seq<Seq<char>> {
    seq!["rclone"@, "gdu"@, "fzf"@, "jq"@]
}

/// The dependencies (`rclone`, `gdu`, `fzf`, `jq`) that are missing, in that
/// order, given whether each was found on the `PATH`.
pub fn missing_deps(found: &[bool]) -> (r: Vec<String>)
    requires
        found@.len() == 4,
    ensures
        forall|i: int| 0 <= i < r@.len() ==> dependencies().contains(#[trigger] r@[i]@),
        string_views(r@) == missing_in(found@, 4),
        string_views(r@).contains("rclone"@) <==> !found@[0],
        string_views(r@).contains("gdu"@) <==> !found@[1],
        string_views(r@).contains("fzf"@) <==> !found@[2],
        string_views(r@).contains("jq"@) <==> !found@[3],
        string_views(r@) == (if found@[0] { Seq::<Seq<char>>::empty() } else { seq!["rclone"@] })
            + (if found@[1] { Seq::<Seq<char>>::empty() } else { seq!["gdu"@] })
            + (if found@[2] { Seq::<Seq<char>>::empty() } else { seq!["fzf"@] })
            + (if found@[3] { Seq::<Seq<char>>::empty() } else { seq!["jq"@] }),
{
    proof {
        lemma_missing_deps_exact(found@);
        lemma_missing_deps_in_order(found@);
    }
    let mut r: Vec<String> = Vec::new();
    let mut i: usize = 0;
    while i < 4
        invariant
            i <= 4,
            found@.len() == 4,
            string_views(r@) == missing_in(found@, i as int),
            forall|j: int| 0 <= j < r@.len() ==> dependencies().contains(#[trigger] r@[j]@),
        decreases 4 - i,
    {
        if !found[i] {
            let name = if i == 0 {
                lit("rclone")
            } else if i == 1 {
                lit("gdu")
            } else if i == 2 {
                lit("fzf")
            } else {
                lit("jq")
            };
            assert(name@ == dependencies()[i as int]);
            let ghost old_r = r@;
            r.push(name);
            assert(string_views(r@) =~= string_views(old_r).push(name@));
            assert(r@[r@.len() - 1] == name);
        }
        i = i + 1;
    }
    r
}

/// The dependencies among the first `n` whose flag says not found, in order.
pub open spec fn missing_in(found: Seq<bool>, n: int) -> Seq<Seq<char>>
    decreases n,
{
    if n <= 0 {
        Seq::empty()
    } else if !found[n - 1] {
        missing_in(found, n - 1).push(dependencies()[n - 1])
    } else {
        missing_in(found, n - 1)
    }
}

/// The dependencies among the first `n` missing ones are exactly those whose
/// flag, among the first `n`, says not found.
proof fn lemma_missing_in_members(found: Seq<bool>, n: int)
    requires
        0 <= n <= 4,
        found.len() == 4,
    ensures
        forall|x: Seq<char>|
            #[trigger] missing_in(found, n).contains(x) <==> exists|i: int|
                0 <= i < n && !found[i] && x == dependencies()[i],
    decreases n,
{
    if n > 0 {
        lemma_missing_in_members(found, n - 1);
        let prev = missing_in(found, n - 1);
        assert forall|x: Seq<char>|
            #[trigger] missing_in(found, n).contains(x) <==> exists|i: int|
                0 <= i < n && !found[i] && x == dependencies()[i] by {
            if missing_in(found, n).contains(x) {
                if !found[n - 1] && x == dependencies()[n - 1] {
                } else {
                    if !found[n - 1] {
                        let pushed = prev.push(dependencies()[n - 1]);
                        let k = choose|k: int| 0 <= k < pushed.len() && #[trigger] pushed[k] == x;
                        assert(k < prev.len());
                        assert(prev[k] == x);
                    }
                    assert(prev.contains(x));
                }
            }
            if exists|i: int| 0 <= i < n && !found[i] && x == dependencies()[i] {
                let i = choose|i: int| 0 <= i < n && !found[i] && x == dependencies()[i];
                if i == n - 1 {
                    assert(missing_in(found, n)[prev.len() as int] == x);
                } else {
                    assert(prev.contains(x));
                    let k = choose|k: int| 0 <= k < prev.len() && #[trigger] prev[k] == x;
                    if !found[n - 1] {
                        assert(missing_in(found, n)[k] == x);
                    }
                }
            }
        }
    }
}

/// Each dependency is reported missing exactly when it was not found:
/// `rclone`, `gdu`, `fzf` and `jq` go with the flags at 0, 1, 2 and 3, and
/// nothing else is ever reported.
pub proof fn lemma_missing_deps_exact(found: Seq<bool>)
    requires
        found.len() == 4,
    ensures
        missing_in(found, 4).contains("rclone"@) <==> !found[0],
        missing_in(found, 4).contains("gdu"@) <==> !found[1],
        missing_in(found, 4).contains("fzf"@) <==> !found[2],
        missing_in(found, 4).contains("jq"@) <==> !found[3],
        forall|x: Seq<char>| #[trigger] missing_in(found, 4).contains(x) ==> x == "rclone"@ || x
            == "gdu"@ || x == "fzf"@ || x == "jq"@,
{
    reveal_strlit("rclone");
    reveal_strlit("gdu");
    reveal_strlit("fzf");
    reveal_strlit("jq");
    lemma_missing_in_members(found, 4);
    let d = dependencies();
    assert(d[0] == "rclone"@ && d[1] == "gdu"@ && d[2] == "fzf"@ && d[3] == "jq"@);
    assert(d[0].len() == 6 && d[1].len() == 3 && d[2].len() == 3 && d[3].len() == 2);
    assert(d[1][0] == 'g' && d[2][0] == 'f');
    assert(missing_in(found, 4).contains(d[0]) ==> !found[0]);
    assert(missing_in(found, 4).contains(d[1]) ==> !found[1]);
    assert(missing_in(found, 4).contains(d[2]) ==> !found[2]);
    assert(missing_in(found, 4).contains(d[3]) ==> !found[3]);
    assert(!found[0] ==> missing_in(found, 4).contains(d[0]));
    assert(!found[1] ==> missing_in(found, 4).contains(d[1]));
    assert(!found[2] ==> missing_in(found, 4).contains(d[2]));
    assert(!found[3] ==> missing_in(found, 4).contains(d[3]));
}

/// The missing dependencies are listed in the order they are checked
/// (`rclone`, `gdu`, `fzf`, `jq`), each once, exactly those not found.
pub proof fn lemma_missing_deps_in_order(found: Seq<bool>)
    requires
        found.len() == 4,
    ensures
        missing_in(found, 4) == (if found[0] { Seq::<Seq<char>>::empty() } else { seq!["rclone"@] })
            + (if found[1] { Seq::<Seq<char>>::empty() } else { seq!["gdu"@] })
            + (if found[2] { Seq::<Seq<char>>::empty() } else { seq!["fzf"@] })
            + (if found[3] { Seq::<Seq<char>>::empty() } else { seq!["jq"@] }),
{
    reveal_with_fuel(missing_in, 5);
    let m1 = missing_in(found, 1);
    let m2 = missing_in(found, 2);
    let m3 = missing_in(found, 3);
    let e = Seq::<Seq<char>>::empty();
    assert(m1 =~= (if found[0] { e } else { seq!["rclone"@] }));
    assert(m2 =~= m1 + (if found[1] { e } else { seq!["gdu"@] }));
    assert(m3 =~= m2 + (if found[2] { e } else { seq!["fzf"@] }));
    assert(missing_in(found, 4) =~= m3 + (if found[3] { e } else { seq!["jq"@] }));
}

/// The package managers tried, in order: the program looked for and the
/// manager's name.
pub open spec fn package_managers() -> Seq<(Seq<char>, Seq<char>)> {
    seq![("apt-get"@, "apt"@), ("pacman"@, "pacman"@), ("dnf"@, "dnf"@), ("zypper"@, "zypper"@)]
}

/// The first package manager whose program was found, else `unknown`.
pub open spec fn package_manager_spec(found: Seq<bool>) -> Seq<char> {
    if found[0] {
        "apt"@
    } else if found[1] {
        "pacman"@
    } else if found[2] {
        "dnf"@
    } else if found[3] {
        "zypper"@
    } else {
        "unknown"@
    }
}

/// The package manager to install with (`detect_pm`), given whether
/// `apt-get`, `pacman`, `dnf` and `zypper` were found, in that order.
pub fn detect_pm(found: &[bool]) -> (pm: String)
    requires
        found@.len() == 4,
    ensures
        pm@ == package_manager_spec(found@),
{
    if found[0] {
        lit("apt")
    } else if found[1] {
        lit("pacman")
    } else if found[2] {
        lit("dnf")
    } else if found[3] {
        lit("zypper")
    } else {
        lit("unknown")
    }
}

/// The command that installs `missing` with package manager `pm`, or the
/// message for a package manager that is not supported.
pub open spec fn install_command_spec(pm: Seq<char>, missing: Seq<Seq<char>>) -> Result<Seq<char>, Seq<char>> {
    let names = seq_join(missing, " "@);
    if pm == "apt"@ {
        Ok("sudo apt install -y "@ + names)
    } else if pm == "pacman"@ {
        Ok("sudo pacman -S --noconfirm "@ + names)
    } else if pm == "dnf"@ {
        Ok("sudo dnf install -y "@ + names)
    } else if pm == "zypper"@ {
        Ok("sudo zypper install -y "@ + names)
    } else {
        Err("Unsupported package manager. Install manually: "@ + seq_join(missing, ", "@))
    }
}

/// The install command for `missing` under package manager `pm`
/// (`install_deps`'s choice), or the error when `pm` is not supported.
pub fn install_command(pm: &str, missing: &[String]) -> (r: Result<String, String>)
    ensures
        match r {
            Ok(c) => install_command_spec(pm@, string_views(missing@)) == Ok::<Seq<char>, Seq<char>>(c@),
            Err(e) => install_command_spec(pm@, string_views(missing@)) == Err::<Seq<char>, Seq<char>>(e@),
        },
{
    let p = chars_of(pm);
    let names = join_strings(missing, " ");
    let prefix = if chars_eq(p.as_slice(), chars_of("apt").as_slice()) {
        "sudo apt install -y "
    } else if chars_eq(p.as_slice(), chars_of("pacman").as_slice()) {
        "sudo pacman -S --noconfirm "
    } else if chars_eq(p.as_slice(), chars_of("dnf").as_slice()) {
        "sudo dnf install -y "
    } else if chars_eq(p.as_slice(), chars_of("zypper").as_slice()) {
        "sudo zypper install -y "
    } else {
        let list = join_strings(missing, ", ");
        let msg = concat(chars_of("Unsupported package manager. Install manually: ").as_slice(), list.as_slice());
        return Err(string_from_chars(msg.as_slice()));
    };
    let c = concat(chars_of(prefix).as_slice(), names.as_slice());
    Ok(string_from_chars(c.as_slice()))
}

} // verus!
