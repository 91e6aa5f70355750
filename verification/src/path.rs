//! Paths as text: home-directory expansion, joining, and the split of a path
//! into its directory part and its file name.

use vstd::prelude::*;
use crate::text::{concat, ends_with, from_chars, last_char, lemma_last_char_before, rfind_char, slice, to_chars};

verus! {

/// Whether the home directory decides what becomes of `path`: it is `~`
/// alone, or begins with `~` and a separator. The separator is `/`; a `\`
/// counts too, since it is one where paths are written with it.
pub open spec fn names_home(path: Seq<char>) -> bool {
    path.len() > 0 && path[0] == '~' && (path.len() == 1 || path[1] == '/' || path[1] == '\\')
}

/// What holds of `out` when it is `path` with a leading `~` expanded. A path
/// that does not name the home directory is left as it is: one that does not
/// begin with `~`, and one in which the `~` is followed by anything but a
/// separator, as in `~name/file`. Of a path that names the home directory,
/// all that follows the `~` is kept at the end, whatever stands before it.
pub open spec fn is_tilde_expansion(path: Seq<char>, out: Seq<char>) -> bool {
    if names_home(path) {
        ends_with(out, path.subrange(1, path.len() as int))
    } else {
        out == path
    }
}

/// Expands a leading `~` into the home directory of the current user, by
/// `shellexpand::tilde`, which replaces the `~` only where it stands alone or
/// before a separator, and leaves every other input as it is. The home
/// directory comes from the environment, so of a path that names it the
/// contract states only what holds whatever it is: see `is_tilde_expansion`.
#[verifier::external_body]
pub fn expand(path: &str) -> (r: String)
    ensures
        is_tilde_expansion(path@, r@),
{
    String::from(shellexpand::tilde(path))
}

/// `name` placed under `dir`: an absolute `name` stands alone, otherwise the
/// two are joined by one `/` unless `dir` is empty or already ends in one.
pub open spec fn joined(dir: Seq<char>, name: Seq<char>) -> Seq<char> {
    if name.len() > 0 && name[0] == '/' {
        name
    } else if dir.len() == 0 || dir[dir.len() - 1] == '/' {
        dir + name
    } else {
        dir + seq!['/'] + name
    }
}

/// Places `name` under `dir`.
pub fn join_path(dir: &str, name: &str) -> (r: String)
    ensures
        r@ == joined(dir@, name@),
{
    let d = to_chars(dir);
    let n = to_chars(name);
    if n.len() > 0 && n[0] == '/' {
        from_chars(&n)
    } else if d.len() == 0 || d[d.len() - 1] == '/' {
        from_chars(&concat(&d, &n))
    } else {
        let mut sep: Vec<char> = Vec::new();
        sep.push('/');
        assert(sep@ == seq!['/']);
        from_chars(&concat(&concat(&d, &sep), &n))
    }
}

/// Index at which the file name of `path` begins: just after its last `/`.
pub open spec fn name_start(path: Seq<char>) -> int {
    match last_char(path, '/') {
        Some(i) => i + 1,
        None => 0,
    }
}

/// The directory part of `path`, up to and including its last `/`.
pub open spec fn directory_part(path: Seq<char>) -> Seq<char> {
    path.subrange(0, name_start(path))
}

/// The file name of `path`: what follows its last `/`.
pub open spec fn file_name_part(path: Seq<char>) -> Seq<char> {
    path.subrange(name_start(path), path.len() as int)
}

/// The directory part of a path is followed by a file name that holds no `/`.
pub proof fn lemma_path_parts(path: Seq<char>)
    ensures
        0 <= name_start(path) <= path.len(),
        directory_part(path) + file_name_part(path) == path,
        forall|i: int| 0 <= i < file_name_part(path).len() ==> file_name_part(path)[i] != '/',
        name_start(path) > 0 ==> path[name_start(path) - 1] == '/',
{
    lemma_last_char_before(path, '/', path.len() as int);
}

/// Splits `path` into its directory part and its file name.
pub fn split_path(path: &Vec<char>) -> (r: (Vec<char>, Vec<char>))
    ensures
        r.0@ == directory_part(path@),
        r.1@ == file_name_part(path@),
{
    proof {
        lemma_path_parts(path@);
    }
    let start: usize = match rfind_char(path, '/') {
        Some(i) => i + 1,
        None => 0,
    };
    (slice(path, 0, start), slice(path, start, path.len()))
}

} // verus!
