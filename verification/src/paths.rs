//! Tilde expansion for configured file paths.

use vstd::prelude::*;
use vstd::string::StrSliceExecFns;
use vstd::string::StringExecFns;

verus! {

/// The path starts with `~/`.
pub open spec fn has_tilde(path: Seq<char>) -> bool {
    path.len() >= 2 && path[0] == '~' && path[1] == '/'
}

/// Relies on dirs::home_dir: the user's home directory. The result
/// depends on the environment, so nothing is promised of it.
#[verifier::external_body]
fn home_dir_string() -> (r: Option<String>) {
    dirs::home_dir().and_then(|p| p.to_str().map(|s| s.to_string()))
}

/// Replace a leading `~` by the given home directory; a path without a
/// leading `~/`, or a missing home directory, leaves the path as it is.
pub fn expand_tilde_with(path: &str, home: Option<&str>) -> (r: String)
    ensures
        !has_tilde(path@) ==> r@ == path@,
        has_tilde(path@) && home is None ==> r@ == path@,
        has_tilde(path@) && (home matches Some(h)) ==> r@ == home->Some_0@ + path@.subrange(
            1,
            path@.len() as int,
        ),
{
    let n = path.unicode_len();
    let tilde = n >= 2 && path.get_char(0) == '~' && path.get_char(1) == '/';
    if tilde {
        match home {
            Some(h) => {
                let rest = path.substring_char(1, n);
                h.to_owned().concat(rest)
            },
            None => path.to_owned(),
        }
    } else {
        path.to_owned()
    }
}

/// Replace a leading `~` by the user's home directory, when one is
/// known to the environment.
pub fn expand_tilde(path: &str) -> (r: String)
    ensures
        !has_tilde(path@) ==> r@ == path@,
        has_tilde(path@) ==> r@ == path@ || exists|h: Seq<char>|
            r@ == h + path@.subrange(1, path@.len() as int),
{
    let home = home_dir_string();
    let r = match home {
        Some(h) => expand_tilde_with(path, Some(h.as_str())),
        None => expand_tilde_with(path, None),
    };
    proof {
        if has_tilde(path@) && r@ != path@ {
            let h = home->Some_0;
            assert(r@ == h@ + path@.subrange(1, path@.len() as int));
        }
    }
    r
}

} // verus!
