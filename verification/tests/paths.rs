use maki_ui::git::{
    cwd_branch_label, cwd_branch_label_with_home, detect_branch, find_git_dir, join_path, names_head_file,
    parse_head,
};
use maki_ui::paths::{collapse_home, collapse_home_given_home, collapse_home_with};
use std::path::Path;

#[test]
fn collapse_home_inside_home() {
    assert_eq!(collapse_home_with("/home/user/projects/app", "/home/user"), "~/projects/app");
}

#[test]
fn collapse_home_outside_home() {
    assert_eq!(collapse_home_with("/tmp/other", "/home/user"), "/tmp/other");
}

#[test]
fn collapse_home_exact_home() {
    assert_eq!(collapse_home_with("/home/user", "/home/user"), "~");
}

#[test]
fn collapse_home_is_textual() {
    assert_eq!(collapse_home_with("/home/username", "/home/user"), "~name");
    assert_eq!(collapse_home_with("/a", ""), "~/a");
    assert_eq!(collapse_home_with("/h\u{e9}/x", "/h\u{e9}"), "~/x");
}

#[test]
fn collapse_home_leaves_other_paths() {
    assert_eq!(collapse_home("/definitely/not/a/home/dir"), "/definitely/not/a/home/dir");
}

#[test]
fn parse_head_regular_ref() {
    assert_eq!(parse_head("ref: refs/heads/feature/foo\n"), Some("feature/foo".to_string()));
}

#[test]
fn parse_head_detached() {
    assert_eq!(parse_head("abc1234deadbeef\n"), Some("abc1234".to_string()));
}

#[test]
fn parse_head_short_or_split_character() {
    assert_eq!(parse_head("abc12\n"), None);
    assert_eq!(parse_head("  abc1234  "), Some("abc1234".to_string()));
    // The seventh byte falls inside a two-byte character.
    assert_eq!(parse_head("abcdef\u{e9}x"), None);
    assert_eq!(parse_head("abcde\u{e9}x"), Some("abcde\u{e9}".to_string()));
    assert_eq!(parse_head("ref: refs/heads/\n"), Some(String::new()));
    assert_eq!(parse_head("\u{3000}ref: refs/heads/main\u{a0}"), Some("main".to_string()));
}

#[test]
fn join_path_adds_separator() {
    assert_eq!(join_path("/a/b", ".git"), "/a/b/.git");
    assert_eq!(join_path("/", ".git"), "/.git");
    assert_eq!(join_path("", ".git"), ".git");
    assert_eq!(join_path("a/", "HEAD"), "a/HEAD");
}

fn repo(dirs: &'static [&'static str]) -> impl Fn(String) -> bool {
    move |p: String| dirs.contains(&p.as_str())
}

#[test]
fn find_git_dir_walks_up() {
    let is_dir = repo(&["/work/repo/.git"]);
    assert_eq!(find_git_dir("/work/repo", &is_dir), Some("/work/repo/.git".to_string()));
    assert_eq!(find_git_dir("/work/repo/src/deep", &is_dir), Some("/work/repo/.git".to_string()));
    assert_eq!(find_git_dir("/work/other", &is_dir), None);
    assert_eq!(find_git_dir("relative/x", &is_dir), None);
    let nested = repo(&["/work/repo/.git", "/work/repo/sub/.git"]);
    assert_eq!(find_git_dir("/work/repo/sub/x", &nested), Some("/work/repo/sub/.git".to_string()));
    let root = repo(&["/.git"]);
    assert_eq!(find_git_dir("/a/b", &root), Some("/.git".to_string()));
}

/// A directory `/tmp/t` that holds a `.git` directory with `HEAD` holding
/// `head`, when `head` is given.
fn in_memory_repo(head: Option<&'static str>) -> (impl Fn(String) -> bool, impl Fn(String) -> Option<String>) {
    let is_dir = move |p: String| {
        p == "/tmp/t" || p == "/tmp/t/sub" || (head.is_some() && p == "/tmp/t/.git")
    };
    let read = move |p: String| match head {
        Some(h) if p == "/tmp/t/.git/HEAD" => Some(h.to_string()),
        _ => None,
    };
    (is_dir, read)
}

#[test]
fn detect_branch_regular_ref() {
    let (is_dir, read) = in_memory_repo(Some("ref: refs/heads/feature/foo\n"));
    assert_eq!(detect_branch("/tmp/t", &is_dir, &read), Some("feature/foo".to_string()));
}

#[test]
fn detect_branch_detached_head() {
    let (is_dir, read) = in_memory_repo(Some("abc1234deadbeef\n"));
    assert_eq!(detect_branch("/tmp/t", &is_dir, &read), Some("abc1234".to_string()));
}

#[test]
fn detect_branch_no_git_dir() {
    let (is_dir, read) = in_memory_repo(None);
    assert_eq!(detect_branch("/tmp/t", &is_dir, &read), None);
}

#[test]
fn detect_branch_from_subdirectory() {
    let (is_dir, read) = in_memory_repo(Some("ref: refs/heads/main\n"));
    let sub = Path::new("/tmp/t").join("sub");
    assert_eq!(detect_branch(&sub.to_string_lossy(), &is_dir, &read), Some("main".to_string()));
}

#[test]
fn detect_branch_unreadable_head() {
    let is_dir = repo(&["/r/.git"]);
    let read = |_p: String| -> Option<String> { None };
    assert_eq!(detect_branch("/r/x", &is_dir, &read), None);
}

#[test]
fn cwd_branch_label_joins_branch() {
    let is_dir = repo(&["/srv/project/.git"]);
    let read = |p: String| if p == "/srv/project/.git/HEAD" { Some("ref: refs/heads/dev\n".to_string()) } else { None };
    assert_eq!(cwd_branch_label("/srv/project/src", &is_dir, &read), "/srv/project/src:dev");
    assert_eq!(cwd_branch_label("/srv/elsewhere", &is_dir, &read), "/srv/elsewhere");
}

#[test]
fn cwd_branch_label_with_home_collapses() {
    let is_dir = repo(&["/home/u/app/.git"]);
    let read = |p: String| if p == "/home/u/app/.git/HEAD" { Some("ref: refs/heads/main\n".to_string()) } else { None };
    assert_eq!(cwd_branch_label_with_home("/home/u/app", Some("/home/u"), &is_dir, &read), "~/app:main");
    assert_eq!(cwd_branch_label_with_home("/home/u/app", None, &is_dir, &read), "/home/u/app:main");
    assert_eq!(collapse_home_given_home("/home/u/x", Some("/home/u")), "~/x");
    assert_eq!(collapse_home_given_home("/home/u/x", None), "/home/u/x");
}

#[test]
fn names_head_file_matches_path_ends_with() {
    let cases = [
        "/repo/.git/HEAD", "HEAD", "./HEAD", "/repo/.git/HEAD/", "/repo/.git/HEAD/.", "/repo/.git/HEAD/./",
        "/repo/.git/HEAD//", "/repo/.git/ORIG_HEAD", "/repo/.git/.HEAD", "/repo/.git/HEAD.lock", "/repo/.git/HEAD/..",
        "/repo/.git/refs/heads/main", "", "/", ".", "/.", "a/./HEAD", "HEA", "xHEAD", "/HEAD",
    ];
    for c in cases {
        assert_eq!(names_head_file(c), Path::new(c).ends_with("HEAD"), "{c:?}");
    }
    assert!(names_head_file("/repo/.git/HEAD"));
    assert!(!names_head_file("/repo/.git/HEAD.lock"));
}
