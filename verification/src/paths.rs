//! Paths as text: `~` expansion, joining, and the two `std::path` queries the
//! tool relies on (last component, and a path relative to a base).
use vstd::prelude::*;
use crate::text::{chars_of, string_from_chars, concat, starts_with, has_prefix, copy_range};

verus! {

/// The user's home directory, as `dirs::home_dir` finds it (from `$HOME`,
/// else the password database), converted to text. When it finds one it is
/// not empty; which one it finds depends on the variables and user database
/// of the running process, so nothing more is stated.
#[verifier::external_body]
fn home_dir() -> (r: Option<String>)
    ensures
        r matches Some(h) ==> h@.len() > 0,
{
    dirs::home_dir().map(|h| h.to_string_lossy().to_string())
}

/// The user's configuration directory, as `dirs::config_dir` finds it
/// (`$XDG_CONFIG_HOME` when absolute, else the home directory's `.config`),
/// converted to text. When it finds one it is not empty; which one depends on
/// the variables of the running process, so nothing more is stated.
#[verifier::external_body]
fn config_dir() -> (r: Option<String>)
    ensures
        r matches Some(d) ==> d@.len() > 0,
{
    dirs::config_dir().map(|d| d.to_string_lossy().to_string())
}

/// `base` with `rest` pushed onto it as by `PathBuf::push` on Unix: an
/// absolute `rest` replaces `base`; otherwise a `/` goes between them unless
/// `base` is empty or already ends with one.
pub open spec fn path_join(base: Seq<char>, rest: Seq<char>) -> Seq<char> {
    if rest.len() > 0 && rest[0] == '/' {
        rest
    } else if base.len() == 0 || base.last() == '/' {
        base + rest
    } else {
        base + seq!['/'] + rest
    }
}

/// `PathBuf::push` / `Path::join` on Unix, as text.
pub fn join_path(base: &[char], rest: &[char]) -> (r: Vec<char>)
    ensures
        r@ == path_join(base@, rest@),
{
    if rest.len() > 0 && rest[0] == '/' {
        copy_range(rest, 0, rest.len())
    } else if base.len() == 0 || base[base.len() - 1] == '/' {
        concat(base, rest)
    } else {
        let mut b = copy_range(base, 0, base.len());
        b.push('/');
        concat(b.as_slice(), rest)
    }
}

/// `path` with a leading `~` replaced by the home directory `home`: `~/rest`
/// becomes `home` joined with `rest`, and `~` alone becomes `home`. Without a
/// home directory, or without a leading `~`, `path` stays as it is.
pub open spec fn tilde_expansion(path: Seq<char>, home: Option<Seq<char>>) -> Seq<char> {
    if has_prefix(path, seq!['~', '/']) {
        match home {
            Some(h) => path_join(h, path.skip(2)),
            None => path,
        }
    } else if path == seq!['~'] {
        match home {
            Some(h) => h,
            None => path,
        }
    } else {
        path
    }
}

/// The view of an optional string.
pub open spec fn opt_view(o: Option<String>) -> Option<Seq<char>> {
    match o {
        Some(s) => Some(s@),
        None => None,
    }
}

/// `~` expansion of `path` against a known home directory.
pub fn expand_tilde_with(path: &[char], home: &Option<String>) -> (r: Vec<char>)
    ensures
        r@ == tilde_expansion(path@, opt_view(*home)),
{
    let prefix = vec!['~', '/'];
    assert(prefix@ =~= seq!['~', '/']);
    if starts_with(path, prefix.as_slice()) {
        match home {
            Some(h) => {
                let hc = chars_of(h.as_str());
                let rest = copy_range(path, 2, path.len());
                assert(rest@ =~= path@.skip(2));
                join_path(hc.as_slice(), rest.as_slice())
            },
            None => copy_range(path, 0, path.len()),
        }
    } else if path.len() == 1 && path[0] == '~' {
        assert(path@ =~= seq!['~']);
        match home {
            Some(h) => chars_of(h.as_str()),
            None => copy_range(path, 0, path.len()),
        }
    } else {
        proof {
            if path@ == seq!['~'] {
                assert(path@[0] == '~');
            }
        }
        copy_range(path, 0, path.len())
    }
}

/// The home directory, looked up once.
pub(crate) fn current_home() -> (r: Option<String>)
    ensures
        r matches Some(h) ==> h@.len() > 0,
{
    home_dir()
}

/// Expands a leading `~` in `path` to the user's home directory.
pub fn expand_tilde(path: &str) -> (r: String)
    ensures
        exists|home: Option<Seq<char>>|
            (home matches Some(h) ==> h.len() > 0) && r@ == #[trigger] tilde_expansion(
                path@,
                home,
            ),
{
    let home = home_dir();
    let p = chars_of(path);
    let r = expand_tilde_with(p.as_slice(), &home);
    assert(r@ == tilde_expansion(path@, opt_view(home)));
    string_from_chars(r.as_slice())
}

/// Where the user configuration file is: `backup-games/config` under the
/// configuration directory `dir`, or under the literal `~/.config` when there
/// is none.
pub open spec fn config_file_path(dir: Option<Seq<char>>) -> Seq<char> {
    let base = match dir {
        Some(d) => d,
        None => seq!['~', '/', '.', 'c', 'o', 'n', 'f', 'i', 'g'],
    };
    path_join(
        path_join(base, seq!['b', 'a', 'c', 'k', 'u', 'p', '-', 'g', 'a', 'm', 'e', 's']),
        seq!['c', 'o', 'n', 'f', 'i', 'g'],
    )
}

/// The path of the user configuration file under the configuration
/// directory `dir` (or under `~/.config` when there is none).
pub fn config_file_for(dir: Option<&str>) -> (r: String)
    ensures
        r@ == config_file_path(
            match dir {
                Some(d) => Some(d@),
                None => None,
            },
        ),
{
    let base = match dir {
        Some(d) => chars_of(d),
        None => vec!['~', '/', '.', 'c', 'o', 'n', 'f', 'i', 'g'],
    };
    let app = vec!['b', 'a', 'c', 'k', 'u', 'p', '-', 'g', 'a', 'm', 'e', 's'];
    let file = vec!['c', 'o', 'n', 'f', 'i', 'g'];
    let p1 = join_path(base.as_slice(), app.as_slice());
    let p2 = join_path(p1.as_slice(), file.as_slice());
    proof {
        assert(base@ == match dir {
            Some(d) => d@,
            None => seq!['~', '/', '.', 'c', 'o', 'n', 'f', 'i', 'g'],
        });
        assert(app@ =~= seq!['b', 'a', 'c', 'k', 'u', 'p', '-', 'g', 'a', 'm', 'e', 's']);
        assert(file@ =~= seq!['c', 'o', 'n', 'f', 'i', 'g']);
    }
    string_from_chars(p2.as_slice())
}

/// The path of the user configuration file, under the configuration
/// directory that the environment gives (`load_user_config`'s lookup).
pub fn user_config_path() -> (r: String)
    ensures
        exists|dir: Option<Seq<char>>|
            (dir matches Some(d) ==> d.len() > 0) && r@ == #[trigger] config_file_path(dir),
{
    let dir = config_dir();
    match &dir {
        Some(d) => config_file_for(Some(d.as_str())),
        None => config_file_for(None),
    }
}

/// What `Path::new(path).file_name()` gives, as text: the last component of
/// `path`, or nothing when `path` ends in `..` or has no components.
pub uninterp spec fn path_file_name(path: Seq<char>) -> Option<Seq<char>>;

/// `Path::file_name`, converted to text (a `&str` path's component is valid
/// text, so the conversion loses nothing). The result is named, not spelled
/// out: it is a function of `path` alone.
#[verifier::external_body]
pub(crate) fn file_name_of(path: &str) -> (r: Option<String>)
    ensures
        opt_view(r) == path_file_name(path@),
{
    std::path::Path::new(path).file_name().map(|n| n.to_string_lossy().to_string())
}

/// What `Path::new(path).strip_prefix(base)` gives, as displayed text: the
/// rest of `path` after the components of `base`, or nothing when `base` is
/// not a prefix of `path` component by component.
pub uninterp spec fn path_strip_prefix(path: Seq<char>, base: Seq<char>) -> Option<Seq<char>>;

/// `Path::strip_prefix`, with the remaining path displayed as text. The
/// result is named, not spelled out: it is a function of `path` and `base`
/// alone.
#[verifier::external_body]
pub(crate) fn strip_path_prefix(path: &str, base: &str) -> (r: Option<String>)
    ensures
        opt_view(r) == path_strip_prefix(path@, base@),
{
    std::path::Path::new(path).strip_prefix(base).ok().map(|p| p.display().to_string())
}

} // verus!
