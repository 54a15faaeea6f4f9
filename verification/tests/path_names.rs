use s3_backup::error::BackupError;
use s3_backup::path::chars_of;
use s3_backup::path::is_safe;
use s3_backup::path::join_path;
use s3_backup::path::relative_name;
use s3_backup::path::same_chars;
use s3_backup::path::split;
use s3_backup::path::string_of;

fn rel(root: &str, path: &str) -> Result<String, BackupError> {
    relative_name(root, path)
}

#[test]
fn root_itself_has_the_empty_name() {
    assert_eq!(rel("root", "root"), Ok(String::new()));
    assert_eq!(rel("root/", "root"), Ok(String::new()));
    assert_eq!(rel("/var/data", "/var/data/"), Ok(String::new()));
}

#[test]
fn entry_directly_under_root() {
    assert_eq!(rel("root", "root/a.txt"), Ok("a.txt".to_string()));
}

#[test]
fn entry_in_a_subdirectory() {
    assert_eq!(rel("root", "root/sub/b.txt"), Ok("sub/b.txt".to_string()));
    assert_eq!(rel("/tmp/x", "/tmp/x/y/z"), Ok("y/z".to_string()));
}

#[test]
fn trailing_and_repeated_separators_do_not_count() {
    assert_eq!(rel("root/", "root/sub/"), Ok("sub".to_string()));
    assert_eq!(rel("root", "root//a///b"), Ok("a/b".to_string()));
    assert_eq!(rel("root//", "root/a"), Ok("a".to_string()));
}

#[test]
fn dot_prefixed_root() {
    assert_eq!(rel("./root", "./root/a"), Ok("a".to_string()));
}

#[test]
fn empty_root_keeps_a_relative_path() {
    assert_eq!(rel("", "a/b"), Ok("a/b".to_string()));
}

#[test]
fn sibling_with_the_root_as_prefix_is_not_under_it() {
    assert_eq!(rel("root", "rootx/a"), Err(BackupError::PathError));
}

#[test]
fn unrelated_path_is_not_under_root() {
    assert_eq!(rel("root", "other/a"), Err(BackupError::PathError));
    assert_eq!(rel("a/b", "a/c/b"), Err(BackupError::PathError));
}

#[test]
fn parent_of_root_is_not_under_it() {
    assert_eq!(rel("a/b", "a"), Err(BackupError::PathError));
}

#[test]
fn absolute_and_relative_do_not_mix() {
    assert_eq!(rel("/tmp/x", "tmp/x/y"), Err(BackupError::PathError));
    assert_eq!(rel("tmp/x", "/tmp/x/y"), Err(BackupError::PathError));
}

#[test]
fn non_ascii_names_are_kept() {
    assert_eq!(rel("räksmörgås", "räksmörgås/ñandú.txt"), Ok("ñandú.txt".to_string()));
}

#[test]
fn split_drops_empty_pieces() {
    let parts = split(&chars_of("/a//bc/"));
    assert_eq!(parts, vec![vec!['a'], vec!['b', 'c']]);
    assert_eq!(split(&chars_of("")), Vec::<Vec<char>>::new());
    assert_eq!(split(&chars_of("///")), Vec::<Vec<char>>::new());
    assert_eq!(split(&chars_of("x")), vec![vec!['x']]);
}

#[test]
fn chars_and_strings_convert_both_ways() {
    assert_eq!(chars_of("héllo"), vec!['h', 'é', 'l', 'l', 'o']);
    assert_eq!(string_of(&vec!['h', 'é', 'l', 'l', 'o']), "héllo");
    assert!(same_chars(&chars_of("abc"), &vec!['a', 'b', 'c']));
    assert!(!same_chars(&chars_of("abc"), &chars_of("abd")));
    assert!(!same_chars(&chars_of("abc"), &chars_of("ab")));
}

#[test]
fn plain_relative_names_are_safe() {
    assert!(is_safe("a.txt"));
    assert!(is_safe("sub/b.txt"));
    assert!(is_safe("sub/"));
    assert!(is_safe(""));
    assert!(is_safe("./a"));
}

#[test]
fn climbing_is_safe_only_inside_the_destination() {
    assert!(is_safe("a/../b"));
    assert!(is_safe("a/b/../../c"));
    assert!(!is_safe(".."));
    assert!(!is_safe("../a"));
    assert!(!is_safe("a/../../b"));
    assert!(!is_safe("./../a"));
}

#[test]
fn absolute_names_and_nul_are_unsafe() {
    assert!(!is_safe("/etc/passwd"));
    assert!(!is_safe("a\0b"));
}

#[test]
fn triple_dot_is_an_ordinary_name() {
    assert!(is_safe(".../a"));
    assert!(is_safe("..a"));
}

#[test]
fn join_path_places_a_name_below_a_base() {
    assert_eq!(join_path("out", "a.txt"), "out/a.txt");
    assert_eq!(join_path("out/", "a.txt"), "out/a.txt");
    assert_eq!(join_path("out", "sub/b.txt"), "out/sub/b.txt");
}

#[test]
fn join_path_edge_cases() {
    assert_eq!(join_path("", "a"), "a");
    assert_eq!(join_path("out", "/abs"), "/abs");
    assert_eq!(join_path("out", ""), "out/");
    assert_eq!(join_path("/", "a"), "/a");
}
