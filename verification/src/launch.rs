//! Naming launched applications.

use vstd::prelude::*;

verus! {

/// What `systemd-run` reports for a unit it started.
#[derive(Debug, Clone, PartialEq, Eq)]
pub struct SystemdRunResult {
    pub unit: String,
    pub invocation_id: Option<String>,
}

/// A launched process that is to be adopted into a scope of its own.
#[derive(Debug, Clone, PartialEq, Eq)]
pub struct AdoptionRequest {
    pub pid: i32,
    pub app_identifier: String,
}

/// `part` is a run of consecutive characters of `whole`.
pub open spec fn is_part_of(part: Seq<char>, whole: Seq<char>) -> bool {
    exists|i: int, j: int| 0 <= i <= j <= whole.len() && #[trigger] whole.subrange(i, j) == part
}

/// The stem that `std::path::Path::file_stem` extracts from a path with this
/// text: the path's final component without its extension, or `None` where
/// the path has no final component. It is a matter of the text alone; no
/// file system is asked.
pub uninterp spec fn path_file_stem(path: Seq<char>) -> Option<Seq<char>>;

/// Calls `std::path::Path::file_stem` on the path with the text `path` and
/// hands the stem out as text. The result is the one that [`path_file_stem`]
/// names, and a stem is a piece of the path it was extracted from.
#[verifier::external_body]
fn file_stem(path: &str) -> (stem: Option<String>)
    ensures
        match stem {
            Some(s) => path_file_stem(path@) == Some(s@) && is_part_of(s@, path@),
            None => path_file_stem(path@) is None,
        },
{
    std::path::Path::new(path).file_stem().map(|s| s.to_string_lossy().to_string())
}

/// The application id for a desktop file: the stem of its path, which is the
/// file's name without directory and extension. `None` exactly where the
/// path has no stem, as a path that names no file.
pub fn appid_from_desktop(path: &str) -> (appid: Option<String>)
    ensures
        match appid {
            Some(id) => path_file_stem(path@) == Some(id@) && is_part_of(id@, path@),
            None => path_file_stem(path@) is None,
        },
{
    file_stem(path)
}

/// `text` ends with the characters of `suffix`.
pub open spec fn has_suffix(text: Seq<char>, suffix: Seq<char>) -> bool {
    text.len() >= suffix.len() && text.subrange(text.len() - suffix.len(), text.len() as int)
        == suffix
}

/// The name of the desktop file for `app`: `app` itself where it ends in
/// `.desktop`, and `app` with `.desktop` behind it otherwise.
pub open spec fn desktop_name(app: Seq<char>) -> Seq<char> {
    if has_suffix(app, ".desktop"@) {
        app
    } else {
        app + ".desktop"@
    }
}

/// Whether `text` ends with `suffix`.
pub fn ends_with(text: &str, suffix: &str) -> (ends: bool)
    ensures
        ends == has_suffix(text@, suffix@),
{
    let len = text.unicode_len();
    let suffix_len = suffix.unicode_len();
    if len < suffix_len {
        return false;
    }
    let start = len - suffix_len;
    let mut i: usize = 0;
    while i < suffix_len
        invariant
            i <= suffix_len,
            len == text@.len(),
            suffix_len == suffix@.len(),
            start == len - suffix_len,
            text@.subrange(start as int, start + i) == suffix@.subrange(0, i as int),
        decreases suffix_len - i,
    {
        if text.get_char(start + i) != suffix.get_char(i) {
            assert(text@.subrange(start as int, len as int)[i as int] != suffix@[i as int]);
            return false;
        }
        assert(text@.subrange(start as int, start + i + 1) =~= text@.subrange(
            start as int,
            start + i,
        ).push(text@[start + i]));
        assert(suffix@.subrange(0, i + 1) =~= suffix@.subrange(0, i as int).push(suffix@[i as int]));
        i += 1;
    }
    assert(suffix@.subrange(0, suffix_len as int) =~= suffix@);
    true
}

/// The desktop file to look up for `app`, which may be given with or without
/// the `.desktop` extension.
pub fn desktop_file_name(app: &str) -> (name: String)
    ensures
        name@ == desktop_name(app@),
{
    if ends_with(app, ".desktop") {
        app.to_owned()
    } else {
        app.to_owned().concat(".desktop")
    }
}

/// The systemd unit for one launch of `appid`: `app-`, the application id,
/// a hyphen and the launch's own id.
pub fn systemd_unit_name(appid: &str, id: &str) -> (unit: String)
    ensures
        unit@ == "app-"@ + appid@ + "-"@ + id@,
{
    "app-".to_owned().concat(appid).concat("-").concat(id)
}

/// The scope that a launched process is adopted into: the unit's name with
/// `.scope` behind it.
pub fn scope_unit_name(unit: &str) -> (scope: String)
    ensures
        scope@ == unit@ + ".scope"@,
{
    unit.to_owned().concat(".scope")
}

} // verus!
