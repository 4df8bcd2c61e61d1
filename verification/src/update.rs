//! Checking for a newer release: whether the running build is the latest
//! tag, and how to read the user's answer.
use vstd::prelude::*;
use crate::text::{
    chars_of, chars_eq, starts_with, has_prefix, trim, trim_chars, eq_ignore_ascii_case,
    chars_eq_ignore_ascii_case,
};

verus! {

/// Whether the build `version` (as `git describe` prints it) is the release
/// `tag` itself: equal to it, or the tag followed by `-` and more.
pub open spec fn on_tag_spec(version: Seq<char>, tag: Seq<char>) -> bool {
    version == tag || has_prefix(version, tag.push('-'))
}

/// Whether `version` is the release `tag`.
pub fn is_on_tag(version: &str, tag: &str) -> (r: bool)
    ensures
        r == on_tag_spec(version@, tag@),
{
    let v = chars_of(version);
    let mut t = chars_of(tag);
    if chars_eq(v.as_slice(), t.as_slice()) {
        return true;
    }
    t.push('-');
    starts_with(v.as_slice(), t.as_slice())
}

/// What a check for a newer release finds.
#[derive(Debug, Clone, Copy, PartialEq, Eq, Structural)]
pub enum UpdateStatus {
    /// The latest tag could not be fetched, or came back empty.
    CouldNotCheck,
    /// The running build is the latest tag.
    UpToDate,
    /// A newer tag exists; the user is asked whether to install it.
    Available,
}

/// What the check finds for the build `version`, given the latest tag as
/// fetched (`None` when fetching it failed).
pub open spec fn update_status_spec(version: Seq<char>, fetched: Option<Seq<char>>) -> UpdateStatus {
    match fetched {
        None => UpdateStatus::CouldNotCheck,
        Some(t) => if t.len() == 0 {
            UpdateStatus::CouldNotCheck
        } else if on_tag_spec(version, t) {
            UpdateStatus::UpToDate
        } else {
            UpdateStatus::Available
        },
    }
}

/// Decides the outcome of an update check: a failed or empty fetch cannot
/// tell anything; otherwise the build is up to date when it is the fetched
/// tag, and an update is available when it is not.
pub fn update_status(version: &str, fetched: Option<&str>) -> (s: UpdateStatus)
    ensures
        s == update_status_spec(
            version@,
            match fetched {
                Some(t) => Some(t@),
                None => None,
            },
        ),
{
    match fetched {
        None => UpdateStatus::CouldNotCheck,
        Some(t) => {
            if t.unicode_len() == 0 {
                UpdateStatus::CouldNotCheck
            } else if is_on_tag(version, t) {
                UpdateStatus::UpToDate
            } else {
                UpdateStatus::Available
            }
        },
    }
}

/// Whether the answer to "Install now? [Y/n]" means yes: a blank line or `y`
/// in either case; when no answer could be read, yes.
pub open spec fn confirms_spec(answer: Option<Seq<char>>) -> bool {
    match answer {
        Some(a) => trim(a).len() == 0 || eq_ignore_ascii_case(trim(a), seq!['y']),
        None => true,
    }
}

/// Whether the user's answer confirms installing the update.
pub fn confirms_install(answer: Option<&str>) -> (yes: bool)
    ensures
        yes == confirms_spec(
            match answer {
                Some(a) => Some(a@),
                None => None,
            },
        ),
{
    match answer {
        Some(a) => {
            let t = trim_chars(chars_of(a).as_slice());
            let y = vec!['y'];
            assert(y@ =~= seq!['y']);
            t.len() == 0 || chars_eq_ignore_ascii_case(t.as_slice(), y.as_slice())
        },
        None => true,
    }
}

} // verus!
