//! Paths as the status bar shows them: the home directory collapsed to
//! `~`, the enclosing git directory and the branch checked out there.

use vstd::prelude::*;
use crate::text::{chars_of, is_prefix, push_char, push_from, starts_with};

verus! {

/// `path` with a leading `home` replaced by `~`; `path` itself when it
/// does not begin with `home`.
pub open spec fn collapse_home_spec(path: Seq<char>, home: Seq<char>) -> Seq<char> {
    if is_prefix(home, path) {
        seq!['~'] + path.skip(home.len() as int)
    } else {
        path
    }
}

/// Replaces a leading `home` in `path` by `~`.
pub fn collapse_home_with(path: &str, home: &str) -> (r: String)
    ensures
        r@ == collapse_home_spec(path@, home@),
{
    let pv = chars_of(path);
    let hv = chars_of(home);
    let mut r = String::new();
    if starts_with(&pv, &hv) {
        push_char(&mut r, '~');
        push_from(&mut r, &pv, hv.len());
        assert(r@ =~= collapse_home_spec(path@, home@));
    } else {
        push_from(&mut r, &pv, 0);
        assert(r@ =~= collapse_home_spec(path@, home@));
    }
    r
}

/// The current user's home directory, as text.
///
/// Trusted: calls `dirs::home_dir`, which reads the environment (`$HOME`
/// on Linux, else the password database) and so can return any path or
/// nothing. Stated: a path it returns is not empty (it drops an empty
/// `$HOME` and an empty database entry). The path is converted with
/// `to_string_lossy`.
#[verifier::external_body]
pub(crate) fn home_dir() -> (r: Option<String>)
    ensures
        r matches Some(h) ==> h@.len() > 0,
{
    match dirs::home_dir() {
        Some(p) => Some(p.to_string_lossy().into_owned()),
        None => None,
    }
}

/// What `collapse_home` shows for `path` when the home directory is
/// `home` (or unknown).
pub open spec fn collapse_home_given(path: Seq<char>, home: Option<Seq<char>>) -> Seq<char> {
    match home {
        Some(h) => collapse_home_spec(path, h),
        None => path,
    }
}

/// A home directory as the environment can give it: unknown, or a path
/// that is not empty.
pub open spec fn home_answer(home: Option<Seq<char>>) -> bool {
    home matches Some(h) ==> h.len() > 0
}

/// The view of an optional string slice.
pub open spec fn opt_str_view(o: Option<&str>) -> Option<Seq<char>> {
    match o {
        Some(s) => Some(s@),
        None => None,
    }
}

/// Replaces a leading `home` in `path` by `~`; `path` unchanged when the
/// home directory is unknown (`None`).
pub fn collapse_home_given_home(path: &str, home: Option<&str>) -> (r: String)
    ensures
        r@ == collapse_home_given(path@, opt_str_view(home)),
{
    match home {
        Some(h) => collapse_home_with(path, h),
        None => String::from_str(path),
    }
}

/// Replaces a leading home directory in `path` by `~`; `path` unchanged
/// when the home directory is unknown. The home directory is the
/// environment's.
pub fn collapse_home(path: &str) -> (r: String)
    ensures
        exists|home: Option<Seq<char>>|
            home_answer(home) && r@ == #[trigger] collapse_home_given(path@, home),
{
    let home = home_dir();
    match home {
        Some(h) => {
            let r = collapse_home_given_home(path, Some(h.as_str()));
            assert(r@ == collapse_home_given(path@, Some(h@)));
            r
        },
        None => {
            let r = collapse_home_given_home(path, None);
            assert(r@ == collapse_home_given(path@, None));
            r
        },
    }
}

/// A path inside the home directory is shown as `~` followed by the rest
/// of the path, and the home directory itself as `~`.
pub proof fn law_collapse_inside_home(home: Seq<char>, rest: Seq<char>)
    ensures
        collapse_home_spec(home + rest, home) == seq!['~'] + rest,
        collapse_home_spec(home, home) == seq!['~'],
{
    assert((home + rest).take(home.len() as int) =~= home);
    assert((home + rest).skip(home.len() as int) =~= rest);
    assert(home.take(home.len() as int) =~= home);
    assert(seq!['~'] + home.skip(home.len() as int) =~= seq!['~']);
}

/// With a known (non-empty) home directory, a path that begins with it
/// is shown as `~` and the rest, shorter by the home directory's length
/// less one; any other path is left as it is.
pub proof fn law_known_home_collapses(path: Seq<char>, home: Seq<char>)
    requires
        home.len() > 0,
    ensures
        is_prefix(home, path) ==> collapse_home_given(path, Some(home)) == seq!['~'] + path.skip(
            home.len() as int,
        ),
        is_prefix(home, path) ==> collapse_home_given(path, Some(home)).len() == path.len()
            - home.len() + 1,
        !is_prefix(home, path) ==> collapse_home_given(path, Some(home)) == path,
{
}

} // verus!
