//! Paths as text, joined the way `PathBuf::push` joins them where `/`
//! separates the components.

use vstd::prelude::*;
use vstd::string::*;

verus! {

/// Whether a path starts at the root.
pub open spec fn is_absolute(path: Seq<char>) -> bool {
    path.len() > 0 && path[0] == '/'
}

/// Whether a separator has to stand between a directory and what is joined
/// to it: not after an empty path, and not after a separator.
pub open spec fn needs_separator(dir: Seq<char>) -> bool {
    dir.len() > 0 && dir.last() != '/'
}

/// A directory's path with a further path joined to it. An absolute path
/// takes the directory's place; any other follows it, after a separator
/// where one is needed.
pub open spec fn joined(dir: Seq<char>, name: Seq<char>) -> Seq<char> {
    if is_absolute(name) {
        name
    } else if needs_separator(dir) {
        dir + seq!['/'] + name
    } else {
        dir + name
    }
}

/// Joins a further path to a directory's path.
pub fn join(dir: &str, name: &str) -> (path: String)
    ensures
        path@ == joined(dir@, name@),
{
    if name.unicode_len() > 0 && name.get_char(0) == '/' {
        return name.to_owned();
    }
    let length: usize = dir.unicode_len();
    let mut path = dir.to_owned();
    if length > 0 && dir.get_char(length - 1) != '/' {
        proof {
            reveal_strlit("/");
        }
        path.append("/");
    }
    path.append(name);
    assert(path@ =~= joined(dir@, name@));
    path
}

} // verus!
