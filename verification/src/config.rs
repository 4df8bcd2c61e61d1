//! Fixed locations and the user configuration file.
use vstd::prelude::*;
use crate::number::{parse_u64, parse_u64_spec};
use crate::sorted_map::SortedMap;
use crate::text::{
    chars_of, string_from_chars, trim, trim_chars, lines, split_lines, views, split_once,
    split_once_at, comma_list, split_comma_list, string_views, lit,
};

verus! {

/// The flat source used when nothing else is configured.
pub const DEFAULT_SOURCE: &'static str = "~/Games";

/// The destination used when nothing else is configured.
pub const DEFAULT_DEST: &'static str = "/mnt/HDD4T/GAMES";

/// The log file.
pub const LOG_FILE: &'static str = "/tmp/backup-games.log";

/// The directory name under the configuration directory.
pub const CONFIG_DIR: &'static str = "backup-games";

/// The change-tracking manifest.
pub const MANIFEST_FILE: &'static str = "~/.local/share/backup-games/manifest";

/// What one line of the configuration file sets: ignoring blank lines and
/// `#` comments, the trimmed text before the first `=` as the key and the
/// trimmed text after it as the value.
pub open spec fn config_line(l: Seq<char>) -> Option<(Seq<char>, Seq<char>)> {
    let t = trim(l);
    if t.len() == 0 || t[0] == '#' {
        None
    } else {
        match split_once(t, '=') {
            Some((k, v)) => Some((trim(k), trim(v))),
            None => None,
        }
    }
}

/// The settings that the lines `ls` make, in order (a later line wins).
pub open spec fn config_of_lines(ls: Seq<Seq<char>>) -> Map<Seq<char>, Seq<char>>
    decreases ls.len(),
{
    if ls.len() == 0 {
        Map::empty()
    } else {
        let m = config_of_lines(ls.drop_last());
        match config_line(ls.last()) {
            Some((k, v)) => m.insert(k, v),
            None => m,
        }
    }
}

/// The settings of the user configuration file.
pub struct UserConfig {
    map: SortedMap<String>,
}

impl View for UserConfig {
    type V = Map<Seq<char>, Seq<char>>;

    closed spec fn view(&self) -> Map<Seq<char>, Seq<char>> {
        self.map.view().map_values(|v: String| v@)
    }
}

impl UserConfig {
    /// The configuration is well formed (every one this library builds is).
    pub closed spec fn wf(self) -> bool {
        self.map.wf()
    }

    /// No settings (a missing or unreadable file).
    pub fn empty() -> (c: Self)
        ensures
            c.wf(),
            c@ == Map::<Seq<char>, Seq<char>>::empty(),
    {
        let c = UserConfig { map: SortedMap::new() };
        assert(c@ =~= Map::<Seq<char>, Seq<char>>::empty());
        c
    }

    /// Reads the configuration file's text (`load_user_config`'s parsing):
    /// `key=value` lines, with blank lines and `#` comments ignored.
    pub fn parse(content: &str) -> (c: Self)
        ensures
            c.wf(),
            c@ == config_of_lines(lines(content@)),
    {
        let ls = split_lines(chars_of(content).as_slice());
        let mut c = UserConfig::empty();
        let mut i: usize = 0;
        while i < ls.len()
            invariant
                i <= ls@.len(),
                views(ls@) == lines(content@),
                c.wf(),
                c@ == config_of_lines(views(ls@).take(i as int)),
            decreases ls@.len() - i,
        {
            let ghost pre = views(ls@).take(i as int);
            let ghost next = views(ls@).take(i + 1);
            assert(next.drop_last() =~= pre);
            assert(next.last() == ls@[i as int]@);
            let t = trim_chars(ls[i].as_slice());
            if t.len() > 0 && t[0] != '#' {
                match split_once_at(t.as_slice(), '=') {
                    Some((k, v)) => {
                        let tk = trim_chars(k.as_slice());
                        let tv = trim_chars(v.as_slice());
                        let ghost old_c = c@;
                        let value = string_from_chars(tv.as_slice());
                        c.map.insert(tk, value);
                        assert(c@ =~= old_c.insert(tk@, tv@));
                    },
                    None => {},
                }
            }
            i = i + 1;
        }
        assert(views(ls@).take(ls@.len() as int) =~= views(ls@));
        c
    }

    /// The value set for `key`, if any.
    pub fn get(&self, key: &str) -> (r: Option<String>)
        requires
            self.wf(),
        ensures
            match r {
                Some(v) => self@.contains_key(key@) && v@ == self@[key@],
                None => !self@.contains_key(key@),
            },
    {
        let k = chars_of(key);
        match self.map.get(k.as_slice()) {
            Some(v) => Some(v.clone()),
            None => None,
        }
    }

    /// The items of the comma-separated list under `key` (none when unset).
    pub fn list(&self, key: &str) -> (r: Vec<String>)
        requires
            self.wf(),
        ensures
            string_views(r@) == (if self@.contains_key(key@) {
                comma_list(self@[key@])
            } else {
                Seq::empty()
            }),
    {
        match self.get(key) {
            Some(v) => split_comma_list(v.as_str()),
            None => {
                let r: Vec<String> = Vec::new();
                assert(string_views(r@) =~= Seq::<Seq<char>>::empty());
                r
            },
        }
    }
}

/// The flat sources: the command line's `--source` when given; else the
/// `sources` list; else the single `source`; else `~/Games`.
pub open spec fn sources_spec(cfg: Map<Seq<char>, Seq<char>>, cli_source: Option<Seq<char>>) -> Seq<Seq<char>> {
    match cli_source {
        Some(s) => seq![s],
        None => if cfg.contains_key("sources"@) {
            comma_list(cfg["sources"@])
        } else if cfg.contains_key("source"@) {
            seq![cfg["source"@]]
        } else {
            seq![DEFAULT_SOURCE@]
        },
    }
}

/// The flat sources to back up.
pub fn load_sources(cfg: &UserConfig, cli_source: Option<&str>) -> (r: Vec<String>)
    requires
        cfg.wf(),
    ensures
        string_views(r@) == sources_spec(
            cfg@,
            match cli_source {
                Some(s) => Some(s@),
                None => None,
            },
        ),
{
    let mut r: Vec<String> = Vec::new();
    match cli_source {
        Some(s) => {
            r.push(lit(s));
        },
        None => match cfg.get("sources") {
            Some(_) => {
                return cfg.list("sources");
            },
            None => match cfg.get("source") {
                Some(v) => {
                    r.push(v);
                },
                None => {
                    r.push(lit(DEFAULT_SOURCE));
                },
            },
        },
    }
    assert(string_views(r@) =~= seq![r@[0]@]);
    r
}

/// The directory sources to back up (`dirsources`; none when unset).
pub fn load_dir_sources(cfg: &UserConfig) -> (r: Vec<String>)
    requires
        cfg.wf(),
    ensures
        string_views(r@) == (if cfg@.contains_key("dirsources"@) {
            comma_list(cfg@["dirsources"@])
        } else {
            Seq::empty()
        }),
{
    cfg.list("dirsources")
}

/// The directory sources to back up in a run: none when the command line
/// names a source, since that source replaces every configured one; else
/// `dirsources`.
pub fn load_dir_sources_for(cfg: &UserConfig, cli_source: Option<&str>) -> (r: Vec<String>)
    requires
        cfg.wf(),
    ensures
        string_views(r@) == (if cli_source is Some || !cfg@.contains_key("dirsources"@) {
            Seq::<Seq<char>>::empty()
        } else {
            comma_list(cfg@["dirsources"@])
        }),
{
    match cli_source {
        Some(_) => {
            let r: Vec<String> = Vec::new();
            assert(string_views(r@) =~= Seq::<Seq<char>>::empty());
            r
        },
        None => load_dir_sources(cfg),
    }
}

/// The subdirectory names or paths to leave out of flat sources (`exclude`).
pub fn load_excludes(cfg: &UserConfig) -> (r: Vec<String>)
    requires
        cfg.wf(),
    ensures
        string_views(r@) == (if cfg@.contains_key("exclude"@) {
            comma_list(cfg@["exclude"@])
        } else {
            Seq::empty()
        }),
{
    cfg.list("exclude")
}

/// The rclone exclude patterns for backup and restore (`backup_exclude`).
pub fn load_backup_exclude(cfg: &UserConfig) -> (r: Vec<String>)
    requires
        cfg.wf(),
    ensures
        string_views(r@) == (if cfg@.contains_key("backup_exclude"@) {
            comma_list(cfg@["backup_exclude"@])
        } else {
            Seq::empty()
        }),
{
    cfg.list("backup_exclude")
}

/// The size limit in GB for directory sources: `min_size` read as a number;
/// 0 (no limit) when unset or not a number.
pub open spec fn min_size_spec(cfg: Map<Seq<char>, Seq<char>>) -> u64 {
    if cfg.contains_key("min_size"@) {
        match parse_u64_spec(cfg["min_size"@]) {
            Some(n) => n,
            None => 0,
        }
    } else {
        0
    }
}

/// The size limit in GB for directory sources.
pub fn load_min_size_gb(cfg: &UserConfig) -> (n: u64)
    requires
        cfg.wf(),
    ensures
        n == min_size_spec(cfg@),
{
    match cfg.get("min_size") {
        Some(v) => match parse_u64(chars_of(v.as_str()).as_slice()) {
            Some(n) => n,
            None => 0,
        },
        None => 0,
    }
}

/// The destination: the command line's when given, else `dest`, else the default.
pub open spec fn dest_spec(cfg: Map<Seq<char>, Seq<char>>, cli_dest: Option<Seq<char>>) -> Seq<char> {
    match cli_dest {
        Some(d) => d,
        None => if cfg.contains_key("dest"@) {
            cfg["dest"@]
        } else {
            DEFAULT_DEST@
        },
    }
}

/// The destination to back up to (or restore from).
pub fn resolve_dest(cfg: &UserConfig, cli_dest: Option<&str>) -> (d: String)
    requires
        cfg.wf(),
    ensures
        d@ == dest_spec(
            cfg@,
            match cli_dest {
                Some(s) => Some(s@),
                None => None,
            },
        ),
{
    match cli_dest {
        Some(d) => lit(d),
        None => match cfg.get("dest") {
            Some(v) => v,
            None => lit(DEFAULT_DEST),
        },
    }
}

} // verus!
