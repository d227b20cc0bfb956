//! Paths as strings: joining, home expansion and the user's directories.

use vstd::prelude::*;
use crate::text::{opt_view, seq_starts_with, same, starts_with, concat2, concat3};

verus! {

/// `dir` joined with `name` as `Path::join` does on Unix: an absolute `name`
/// replaces `dir`, and a `/` is put between them unless `dir` is empty or
/// already ends with one.
pub open spec fn spec_join(dir: Seq<char>, name: Seq<char>) -> Seq<char> {
    if name.len() > 0 && name[0] == '/' {
        name
    } else if dir.len() == 0 {
        name
    } else if dir.last() == '/' {
        dir + name
    } else {
        dir + seq!['/'] + name
    }
}

/// `Path::join` on Unix paths held as strings.
pub fn join(dir: &str, name: &str) -> (r: String)
    ensures
        r@ == spec_join(dir@, name@),
{
    let nl = name.unicode_len();
    if nl > 0 && name.get_char(0) == '/' {
        return String::from_str(name);
    }
    let dl = dir.unicode_len();
    if dl == 0 {
        String::from_str(name)
    } else if dir.get_char(dl - 1) == '/' {
        concat2(dir, name)
    } else {
        proof {
            reveal_strlit("/");
            assert("/"@ =~= seq!['/']);
        }
        concat3(dir, "/", name)
    }
}

/// `path` with a leading `~` replaced by the home directory `home` (when it
/// is known): `~` alone becomes `home`, `~/rest` becomes `home` joined with `rest`.
pub open spec fn spec_expand(path: Seq<char>, home: Option<Seq<char>>) -> Seq<char> {
    if path == "~"@ {
        match home {
            Some(h) => h,
            None => path,
        }
    } else if seq_starts_with(path, "~/"@) {
        match home {
            Some(h) => spec_join(h, path.skip(2)),
            None => path,
        }
    } else {
        path
    }
}

/// Expands a leading `~` with the given home directory.
pub fn expand_path_with(path: &str, home: Option<String>) -> (r: String)
    ensures
        r@ == spec_expand(path@, opt_view(home)),
{
    if same(path, "~") {
        match home {
            Some(h) => h,
            None => String::from_str(path),
        }
    } else if starts_with(path, "~/") {
        match home {
            Some(h) => {
                proof {
                    reveal_strlit("~/");
                }
                let rest = path.substring_char(2, path.unicode_len());
                join(h.as_str(), rest)
            },
            None => String::from_str(path),
        }
    } else {
        String::from_str(path)
    }
}

/// Calls `dirs::home_dir`. Its answer depends on the environment, so nothing
/// is claimed of it; a directory whose name is not UTF-8 comes back with
/// its undecodable bytes replaced.
#[verifier::external_body]
pub(crate) fn home_dir() -> (r: Option<String>) {
    dirs::home_dir().map(|p| p.to_string_lossy().into_owned())
}

/// Calls `dirs::config_dir`. Its answer depends on the environment, so nothing
/// is claimed of it; a directory whose name is not UTF-8 comes back with
/// its undecodable bytes replaced.
#[verifier::external_body]
pub(crate) fn config_dir() -> (r: Option<String>) {
    dirs::config_dir().map(|p| p.to_string_lossy().into_owned())
}

/// Calls `dirs::download_dir`. Its answer depends on the environment, so
/// nothing is claimed of it; a directory whose name is not UTF-8 comes back
/// with its undecodable bytes replaced.
#[verifier::external_body]
pub(crate) fn download_dir() -> (r: Option<String>) {
    dirs::download_dir().map(|p| p.to_string_lossy().into_owned())
}

/// Expands a leading `~` into the user's home directory. Whatever the
/// environment says the home directory is, the result is `spec_expand` of the
/// path with some home directory, and a path without a leading `~` comes back
/// unchanged.
pub fn expand_path(path: &str) -> (r: String)
    ensures
        exists|h: Option<Seq<char>>| r@ == spec_expand(path@, h),
        !(path@ == "~"@ || seq_starts_with(path@, "~/"@)) ==> r@ == path@,
{
    let home = if same(path, "~") || starts_with(path, "~/") {
        home_dir()
    } else {
        None
    };
    let ghost h = opt_view(home);
    let r = expand_path_with(path, home);
    assert(r@ == spec_expand(path@, h));
    r
}

} // verus!
