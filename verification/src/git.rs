//! Finding the git directory above a working directory and reading the
//! checked-out branch from its `HEAD` file.
//!
//! The file system is reached through the two functions that callers
//! pass in: one tells whether a path is a directory, the other reads a
//! file. What the search decides is stated over their answers.

use vstd::prelude::*;
use vstd::utf8::{
    decode_utf8, encode_utf8, encode_utf8_decode_utf8, encode_utf8_valid_utf8, is_ascii_chars,
    is_ascii_chars_encode_utf8, is_char_boundary, is_char_boundary_iff_not_is_continuation_byte,
    is_char_boundary_start_end_of_seq,
};
use crate::text::{chars_of, is_prefix, push_char, push_from, starts_with};
use crate::paths::{collapse_home_given, collapse_home_given_home, home_answer, home_dir, opt_str_view};

verus! {

/// The view of an optional string.
pub open spec fn opt_view(o: Option<String>) -> Option<Seq<char>> {
    match o {
        Some(s) => Some(s@),
        None => None,
    }
}

/// `dir` joined with the single relative component `name`, as
/// `Path::join` does: a `/` goes between them unless `dir` is empty or
/// already ends in one.
pub open spec fn join_name(dir: Seq<char>, name: Seq<char>) -> Seq<char> {
    if dir.len() == 0 || dir.last() == '/' {
        dir + name
    } else {
        dir.push('/') + name
    }
}

/// `.git`
pub open spec fn git_name() -> Seq<char> {
    seq!['.', 'g', 'i', 't']
}

/// `HEAD`
pub open spec fn head_name() -> Seq<char> {
    seq!['H', 'E', 'A', 'D']
}

/// What `Path::parent` returns for `path`: the path without its final
/// component, or nothing for a root or an empty path.
pub uninterp spec fn path_parent(path: Seq<char>) -> Option<Seq<char>>;

/// The `k`-th ancestor of `path` (`path` itself for 0), following
/// `Path::parent`; nothing once the chain has ended.
pub open spec fn ancestor(path: Seq<char>, k: nat) -> Option<Seq<char>>
    decreases k,
{
    if k == 0 {
        Some(path)
    } else {
        match ancestor(path, (k - 1) as nat) {
            Some(p) => path_parent(p),
            None => None,
        }
    }
}

/// The `.git` candidate inside the `k`-th ancestor of `path`.
pub open spec fn git_candidate(path: Seq<char>, k: nat) -> Seq<char> {
    join_name(ancestor(path, k)->0, git_name())
}

/// `is_dir` may answer `b` when asked about `path`.
pub open spec fn dir_answer<F: Fn(String) -> bool>(is_dir: F, path: Seq<char>, b: bool) -> bool {
    exists|a: String| a@ == path && call_ensures(is_dir, (a,), b)
}

/// What the search for a git directory from `cwd` yields, given the
/// answers of `is_dir`: the `.git` of the nearest ancestor (`cwd`
/// included) whose `.git` is a directory, or nothing when no ancestor
/// has one.
pub open spec fn git_dir_search<F: Fn(String) -> bool>(
    is_dir: F,
    cwd: Seq<char>,
    r: Option<Seq<char>>,
) -> bool {
    match r {
        Some(g) => exists|k: nat|
            {
                &&& #[trigger] ancestor(cwd, k) is Some
                &&& g == git_candidate(cwd, k)
                &&& dir_answer(is_dir, g, true)
                &&& forall|j: nat| j < k ==> dir_answer(is_dir, #[trigger] git_candidate(cwd, j), false)
            },
        None => exists|k: nat|
            {
                &&& #[trigger] ancestor(cwd, k) is None
                &&& forall|j: nat| j < k ==> dir_answer(is_dir, #[trigger] git_candidate(cwd, j), false)
            },
    }
}

/// The parent directory of `path`.
///
/// Trusted: calls `std::path::Path::parent`, named `path_parent` here.
/// Its result is a proper prefix of its argument (it is the argument with
/// the final component cut off, a subslice at a component boundary), so
/// the text converts back without loss.
#[verifier::external_body]
fn parent_dir(path: &str) -> (r: Option<String>)
    ensures
        opt_view(r) == path_parent(path@),
        r matches Some(p) ==> p@.len() < path@.len() && is_prefix(p@, path@),
{
    match std::path::Path::new(path).parent() {
        Some(p) => Some(p.to_string_lossy().into_owned()),
        None => None,
    }
}

/// `dir` joined with `name` (see `join_name`).
pub fn join_path(dir: &str, name: &str) -> (r: String)
    ensures
        r@ == join_name(dir@, name@),
{
    let dv = chars_of(dir);
    let nv = chars_of(name);
    let mut r = String::new();
    push_from(&mut r, &dv, 0);
    assert(dv@.skip(0) =~= dv@);
    if dv.len() > 0 && dv[dv.len() - 1] != '/' {
        push_char(&mut r, '/');
    }
    push_from(&mut r, &nv, 0);
    assert(nv@.skip(0) =~= nv@);
    assert(r@ =~= join_name(dir@, name@));
    r
}

/// The git directory of `cwd`: `.git` in `cwd` or in the nearest of its
/// ancestors that has one, as `is_dir` reports them.
pub fn find_git_dir<F: Fn(String) -> bool>(cwd: &str, is_dir: &F) -> (r: Option<String>)
    requires
        forall|a: String| call_requires(*is_dir, (a,)),
    ensures
        git_dir_search(*is_dir, cwd@, opt_view(r)),
{
    let mut dir = String::from_str(cwd);
    let ghost mut k: nat = 0;
    loop
        invariant
            forall|a: String| call_requires(*is_dir, (a,)),
            ancestor(cwd@, k) == Some(dir@),
            forall|j: nat| j < k ==> dir_answer(*is_dir, #[trigger] git_candidate(cwd@, j), false),
        decreases dir@.len(),
    {
        let candidate = join_path(dir.as_str(), ".git");
        proof {
            reveal_strlit(".git");
            assert(".git"@ =~= git_name());
        }
        let probe = candidate.clone();
        let found = is_dir(probe);
        assert(dir_answer(*is_dir, candidate@, found));
        if found {
            assert(ancestor(cwd@, k) is Some);
            return Some(candidate);
        }
        let parent = parent_dir(dir.as_str());
        proof {
            assert(ancestor(cwd@, k + 1) == path_parent(dir@));
            assert forall|j: nat| j < k + 1 implies dir_answer(*is_dir, #[trigger] git_candidate(cwd@, j), false) by {
                if j == k {
                    assert(git_candidate(cwd@, j) == candidate@);
                }
            }
        }
        match parent {
            Some(p) => {
                dir = p;
                proof {
                    k = k + 1;
                }
            },
            None => {
                assert(ancestor(cwd@, k + 1) is None);
                return None;
            },
        }
    }
}

/// Whether `c` is white space in Unicode's sense, as `char::is_whitespace`
/// documents it.
pub open spec fn is_whitespace(c: char) -> bool {
    let u = c as u32;
    ||| 9 <= u <= 13
    ||| u == 32
    ||| u == 0x85
    ||| u == 0xA0
    ||| u == 0x1680
    ||| 0x2000 <= u <= 0x200A
    ||| u == 0x2028
    ||| u == 0x2029
    ||| u == 0x202F
    ||| u == 0x205F
    ||| u == 0x3000
}

/// `s` without leading white space.
pub open spec fn trim_start(s: Seq<char>) -> Seq<char>
    decreases s.len(),
{
    if s.len() > 0 && is_whitespace(s[0]) {
        trim_start(s.drop_first())
    } else {
        s
    }
}

/// `s` without trailing white space.
pub open spec fn trim_end(s: Seq<char>) -> Seq<char>
    decreases s.len(),
{
    if s.len() > 0 && is_whitespace(s.last()) {
        trim_end(s.drop_last())
    } else {
        s
    }
}

/// `s` without leading and trailing white space, as `str::trim` gives it.
pub open spec fn trim(s: Seq<char>) -> Seq<char> {
    trim_end(trim_start(s))
}

/// `ref: refs/heads/`, the start of a `HEAD` that names a branch.
pub open spec fn branch_ref_prefix() -> Seq<char> {
    seq!['r', 'e', 'f', ':', ' ', 'r', 'e', 'f', 's', '/', 'h', 'e', 'a', 'd', 's', '/']
}

/// The first seven bytes of `t` as text (the short form of a commit
/// hash), when the seventh byte ends a character; else nothing.
pub open spec fn short_hash(t: Seq<char>) -> Option<Seq<char>> {
    if is_char_boundary(encode_utf8(t), 7) {
        Some(decode_utf8(encode_utf8(t).subrange(0, 7)))
    } else {
        None
    }
}

/// What the status bar shows for the contents of a `HEAD` file: the
/// branch name after `ref: refs/heads/`, or else the short hash of a
/// detached head; both after trimming white space.
pub open spec fn branch_from_head(head: Seq<char>) -> Option<Seq<char>> {
    let t = trim(head);
    if is_prefix(branch_ref_prefix(), t) {
        Some(t.skip(branch_ref_prefix().len() as int))
    } else {
        short_hash(t)
    }
}

/// Whether `c` is white space (see `is_whitespace`).
fn char_is_whitespace(c: char) -> (b: bool)
    ensures
        b == is_whitespace(c),
{
    let u = c as u32;
    (9 <= u && u <= 13) || u == 32 || u == 0x85 || u == 0xA0 || u == 0x1680 || (0x2000 <= u && u
        <= 0x200A) || u == 0x2028 || u == 0x2029 || u == 0x202F || u == 0x205F || u == 0x3000
}

/// `v` without leading and trailing white space.
fn trimmed(v: &Vec<char>) -> (r: Vec<char>)
    ensures
        r@ == trim(v@),
{
    let mut i: usize = 0;
    assert(v@.skip(0) =~= v@);
    while i < v.len() && char_is_whitespace(v[i])
        invariant
            i <= v.len(),
            trim_start(v@) == trim_start(v@.skip(i as int)),
        decreases v.len() - i,
    {
        assert(v@.skip(i as int).drop_first() =~= v@.skip(i + 1));
        i = i + 1;
    }
    assert(trim_start(v@) == v@.skip(i as int));
    let mut j: usize = v.len();
    assert(v@.subrange(i as int, j as int) =~= v@.skip(i as int));
    while j > i && char_is_whitespace(v[j - 1])
        invariant
            i <= j <= v.len(),
            trim(v@) == trim_end(v@.subrange(i as int, j as int)),
        decreases j,
    {
        assert(v@.subrange(i as int, j as int).drop_last() =~= v@.subrange(i as int, j - 1));
        j = j - 1;
    }
    let mut r: Vec<char> = Vec::new();
    let mut x: usize = i;
    while x < j
        invariant
            i <= x <= j <= v.len(),
            r@ == v@.subrange(i as int, x as int),
        decreases j - x,
    {
        r.push(v[x]);
        assert(v@.subrange(i as int, x + 1) =~= v@.subrange(i as int, x as int).push(v@[x as int]));
        x = x + 1;
    }
    r
}

/// The branch (or short commit hash) that the contents of a `HEAD` file
/// name; see `branch_from_head`.
pub fn parse_head(head: &str) -> (r: Option<String>)
    ensures
        opt_view(r) == branch_from_head(head@),
{
    let hv = chars_of(head);
    let tv = trimmed(&hv);
    let prefix = chars_of("ref: refs/heads/");
    proof {
        reveal_strlit("ref: refs/heads/");
        assert(prefix@ =~= branch_ref_prefix());
    }
    if starts_with(&tv, &prefix) {
        let mut b = String::new();
        push_from(&mut b, &tv, prefix.len());
        assert(b@ =~= tv@.skip(prefix@.len() as int));
        return Some(b);
    }
    let mut t = String::new();
    push_from(&mut t, &tv, 0);
    assert(tv@.skip(0) =~= tv@);
    let ts = t.as_str();
    if ts.is_char_boundary(7) {
        let (a, _rest) = ts.split_at(7);
        let b = a.to_owned();
        proof {
            encode_utf8_decode_utf8(a@);
        }
        Some(b)
    } else {
        None
    }
}

/// `read_file` may answer `content` when asked for the file at `path`.
pub open spec fn file_answer<G: Fn(String) -> Option<String>>(
    read_file: G,
    path: Seq<char>,
    content: Option<Seq<char>>,
) -> bool {
    exists|a: String, out: Option<String>|
        a@ == path && call_ensures(read_file, (a,), out) && opt_view(out) == content
}

/// What the branch lookup from `cwd` yields, given the answers of
/// `is_dir` and `read_file`: nothing without a git directory or a
/// readable `HEAD` in it, else what the `HEAD` names.
pub open spec fn branch_search<F: Fn(String) -> bool, G: Fn(String) -> Option<String>>(
    is_dir: F,
    read_file: G,
    cwd: Seq<char>,
    r: Option<Seq<char>>,
) -> bool {
    exists|git: Option<Seq<char>>|
        #[trigger] git_dir_search(is_dir, cwd, git) && match git {
            None => r is None,
            Some(g) => exists|content: Option<Seq<char>>|
                #[trigger] file_answer(read_file, join_name(g, head_name()), content) && r == match content {
                    Some(c) => branch_from_head(c),
                    None => None,
                },
        }
}

/// The branch checked out in the git repository that holds `cwd`: the
/// `HEAD` of its git directory, read with `read_file` and parsed by
/// `parse_head`.
pub fn detect_branch<F: Fn(String) -> bool, G: Fn(String) -> Option<String>>(
    cwd: &str,
    is_dir: &F,
    read_file: &G,
) -> (r: Option<String>)
    requires
        forall|a: String| call_requires(*is_dir, (a,)),
        forall|a: String| call_requires(*read_file, (a,)),
    ensures
        branch_search(*is_dir, *read_file, cwd@, opt_view(r)),
{
    let git = find_git_dir(cwd, is_dir);
    assert(git_dir_search(*is_dir, cwd@, opt_view(git)));
    match git {
        None => None,
        Some(g) => {
            let head_path = join_path(g.as_str(), "HEAD");
            proof {
                reveal_strlit("HEAD");
                assert("HEAD"@ =~= head_name());
            }
            let probe = head_path.clone();
            let content = read_file(probe);
            assert(file_answer(*read_file, head_path@, opt_view(content)));
            match content {
                None => None,
                Some(c) => parse_head(c.as_str()),
            }
        },
    }
}

/// The directory label with the branch appended after a colon, when
/// there is one.
pub open spec fn label_with_branch(label: Seq<char>, branch: Option<Seq<char>>) -> Seq<char> {
    match branch {
        Some(b) => label.push(':') + b,
        None => label,
    }
}

/// The working-directory label of the status bar: `cwd` with the home
/// directory collapsed to `~`, followed by `:` and the branch when
/// `cwd` is inside a git repository. The home directory is the
/// environment's (see `cwd_branch_label_with_home`).
pub fn cwd_branch_label<F: Fn(String) -> bool, G: Fn(String) -> Option<String>>(
    cwd: &str,
    is_dir: &F,
    read_file: &G,
) -> (r: String)
    requires
        forall|a: String| call_requires(*is_dir, (a,)),
        forall|a: String| call_requires(*read_file, (a,)),
    ensures
        exists|home: Option<Seq<char>>, branch: Option<Seq<char>>|
            #![trigger branch_search(*is_dir, *read_file, cwd@, branch), collapse_home_given(cwd@, home)]
            home_answer(home) && branch_search(*is_dir, *read_file, cwd@, branch) && r@
                == label_with_branch(collapse_home_given(cwd@, home), branch),
{
    let home = home_dir();
    match home {
        Some(h) => {
            let r = cwd_branch_label_with_home(cwd, Some(h.as_str()), is_dir, read_file);
            assert(home_answer(Some(h@)));
            r
        },
        None => cwd_branch_label_with_home(cwd, None, is_dir, read_file),
    }
}

/// The working-directory label of the status bar for the home directory
/// `home` (unknown for `None`): `cwd` with `home` collapsed to `~`,
/// followed by `:` and the branch when `cwd` is inside a git repository.
pub fn cwd_branch_label_with_home<F: Fn(String) -> bool, G: Fn(String) -> Option<String>>(
    cwd: &str,
    home: Option<&str>,
    is_dir: &F,
    read_file: &G,
) -> (r: String)
    requires
        forall|a: String| call_requires(*is_dir, (a,)),
        forall|a: String| call_requires(*read_file, (a,)),
    ensures
        exists|branch: Option<Seq<char>>|
            #[trigger] branch_search(*is_dir, *read_file, cwd@, branch) && r@ == label_with_branch(
                collapse_home_given(cwd@, opt_str_view(home)),
                branch,
            ),
{
    let mut label = collapse_home_given_home(cwd, home);
    let branch = detect_branch(cwd, is_dir, read_file);
    let ghost b = opt_view(branch);
    match branch {
        Some(b) => {
            push_char(&mut label, ':');
            label.append(b.as_str());
        },
        None => {},
    }
    assert(label@ =~= label_with_branch(collapse_home_given(cwd@, opt_str_view(home)), b));
    label
}

/// `p` without trailing separators and trailing `.` components, which
/// `Path::components` does not yield at the end of a path.
pub open spec fn trim_path_end(p: Seq<char>) -> Seq<char>
    decreases p.len(),
{
    if p.len() > 0 && p.last() == '/' {
        trim_path_end(p.drop_last())
    } else if p.len() >= 2 && p.last() == '.' && p[p.len() - 2] == '/' {
        trim_path_end(p.drop_last())
    } else {
        p
    }
}

/// The last component of path `p` is `HEAD`, as `Path::ends_with("HEAD")`
/// tests it.
pub open spec fn names_head(p: Seq<char>) -> bool {
    let t = trim_path_end(p);
    &&& t.len() >= 4
    &&& t.subrange(t.len() - 4, t.len() as int) == head_name()
    &&& (t.len() == 4 || t[t.len() - 5] == '/')
}

/// Whether a changed path reported by the file watcher is a `HEAD` file,
/// the change that can move the checked-out branch.
pub fn names_head_file(path: &str) -> (b: bool)
    ensures
        b == names_head(path@),
{
    let v = chars_of(path);
    let mut j: usize = v.len();
    assert(v@.take(j as int) =~= v@);
    while j > 0 && (v[j - 1] == '/' || (j >= 2 && v[j - 1] == '.' && v[j - 2] == '/'))
        invariant
            j <= v.len(),
            trim_path_end(v@) == trim_path_end(v@.take(j as int)),
        decreases j,
    {
        assert(v@.take(j as int).drop_last() =~= v@.take(j - 1));
        j = j - 1;
    }
    assert(trim_path_end(v@.take(j as int)) == v@.take(j as int));
    let ghost t = v@.take(j as int);
    if j < 4 {
        return false;
    }
    let last_four = v[j - 4] == 'H' && v[j - 3] == 'E' && v[j - 2] == 'A' && v[j - 1] == 'D';
    assert(last_four <==> t.subrange(t.len() - 4, t.len() as int) =~= head_name());
    last_four && (j == 4 || v[j - 5] == '/')
}

/// With a known (non-empty) home directory `home`, the label of a
/// directory `home + rest` inside a repository on `branch` is `~`, the
/// rest, `:` and the branch; outside a repository it is `~` and the rest.
pub proof fn law_label_under_home(home: Seq<char>, rest: Seq<char>, branch: Option<Seq<char>>)
    requires
        home.len() > 0,
    ensures
        label_with_branch(collapse_home_given(home + rest, Some(home)), branch) == match branch {
            Some(b) => seq!['~'] + rest + seq![':'] + b,
            None => seq!['~'] + rest,
        },
{
    crate::paths::law_collapse_inside_home(home, rest);
    match branch {
        Some(b) => {
            assert((seq!['~'] + rest).push(':') + b =~= seq!['~'] + rest + seq![':'] + b);
        },
        None => {},
    }
}

/// A lowercase hexadecimal digit, as commit hashes are written.
pub open spec fn is_hex_digit(c: char) -> bool {
    ('0' <= c <= '9') || ('a' <= c <= 'f')
}

/// A `HEAD` that refers to a branch, `ref: refs/heads/<name>` and a line
/// break, shows that branch's name (for a name that does not end in
/// white space, which `str::trim` would take off).
pub proof fn law_branch_ref_names_branch(name: Seq<char>)
    requires
        name.len() == 0 || !is_whitespace(name.last()),
    ensures
        branch_from_head(branch_ref_prefix() + name.push('\n')) == Some(name),
{
    let p = branch_ref_prefix();
    let line = p + name;
    let h = p + name.push('\n');
    assert(h =~= line.push('\n'));
    assert(h[0] == 'r');
    assert(trim_start(h) == h);
    assert(h.drop_last() =~= line);
    assert(trim_end(h) == trim_end(line));
    if name.len() == 0 {
        assert(line.last() == '/');
    } else {
        assert(line.last() == name.last());
    }
    assert(trim_end(line) == line);
    assert(line.take(p.len() as int) =~= p);
    assert(line.skip(p.len() as int) =~= name);
}

/// A detached `HEAD`, a commit hash in lowercase hexadecimal and a line
/// break, shows the first seven digits of the hash.
pub proof fn law_detached_head_short_hash(hash: Seq<char>)
    requires
        hash.len() >= 7,
        forall|i: int| 0 <= i < hash.len() ==> is_hex_digit(#[trigger] hash[i]),
    ensures
        branch_from_head(hash.push('\n')) == Some(hash.take(7)),
{
    let h = hash.push('\n');
    assert(h[0] == hash[0]);
    assert(is_hex_digit(hash[0]));
    assert(trim_start(h) == h);
    assert(h.drop_last() =~= hash);
    assert(is_hex_digit(hash.last()));
    assert(trim_end(hash) == hash);
    assert(trim(h) == hash);
    if hash.len() >= branch_ref_prefix().len() {
        assert(hash.take(branch_ref_prefix().len() as int)[0] == hash[0]);
        assert(branch_ref_prefix()[0] == 'r');
    }
    assert(!is_prefix(branch_ref_prefix(), hash));
    // The hash is ASCII, so its UTF-8 encoding is one byte per digit.
    assert(is_ascii_chars(hash));
    let bytes = encode_utf8(hash);
    is_ascii_chars_encode_utf8(hash);
    encode_utf8_valid_utf8(hash);
    if hash.len() == 7 {
        is_char_boundary_start_end_of_seq(bytes);
    } else {
        is_char_boundary_iff_not_is_continuation_byte(bytes, 7);
        assert(hash[7] as u8 == bytes[7]);
        assert(is_hex_digit(hash[7]));
    }
    let first = hash.take(7);
    assert(is_ascii_chars(first));
    is_ascii_chars_encode_utf8(first);
    assert(encode_utf8(first) =~= bytes.subrange(0, 7)) by {
        assert forall|i: int| 0 <= i < 7 implies encode_utf8(first)[i] == bytes[i] by {
            assert(first[i] == hash[i]);
        }
    }
    encode_utf8_decode_utf8(first);
}

} // verus!
