use server_fisiere::error::{Failure, Rejection};
use server_fisiere::name::read_file_name;
use server_fisiere::path::{
    begins_with, chars_of, contains_parent_segment, join_paths, relative, validate, SEPARATOR,
};

fn chars(s: &str) -> Vec<char> {
    s.chars().collect()
}

fn target(root: &str, name: &str) -> Result<String, Rejection> {
    validate(root, name).map(|t| t.as_str().to_string())
}

#[test]
fn a_plain_relative_name_is_joined_onto_the_root() {
    assert_eq!(target("/srv/up", "a/b.txt"), Ok("/srv/up/a/b.txt".to_string()));
    assert_eq!(target("/srv/up", "file"), Ok("/srv/up/file".to_string()));
}

#[test]
fn a_root_that_ends_in_a_separator_gets_no_second_one() {
    assert_eq!(target("/srv/up/", "a.txt"), Ok("/srv/up/a.txt".to_string()));
    assert_eq!(target("C:\\up\\", "a.txt"), Ok("C:\\up\\a.txt".to_string()));
    assert_eq!(target("/", "a.txt"), Ok("/a.txt".to_string()));
}

#[test]
fn an_empty_root_leaves_the_name_alone() {
    assert_eq!(target("", "a/b"), Ok("a/b".to_string()));
}

#[test]
fn the_empty_name_is_refused() {
    assert_eq!(target("/srv/up", ""), Err(Rejection::PathInvalid));
}

#[test]
fn a_name_with_a_parent_segment_is_refused() {
    assert_eq!(target("/srv/up", "../secret"), Err(Rejection::PathInvalid));
    assert_eq!(target("/srv/up", "a/../b"), Err(Rejection::PathInvalid));
    assert_eq!(target("/srv/up", "a/.."), Err(Rejection::PathInvalid));
    assert_eq!(target("/srv/up", ".."), Err(Rejection::PathInvalid));
}

#[test]
fn two_dots_are_refused_wherever_they_stand() {
    assert_eq!(target("/srv/up", "a..b"), Err(Rejection::PathInvalid));
    assert_eq!(target("/srv/up", "notes...txt"), Err(Rejection::PathInvalid));
}

#[test]
fn single_dots_are_accepted() {
    assert_eq!(target("/srv/up", ".hidden"), Ok("/srv/up/.hidden".to_string()));
    assert_eq!(target("/srv/up", "a.b.c"), Ok("/srv/up/a.b.c".to_string()));
    assert_eq!(target("/srv/up", "./a"), Ok("/srv/up/./a".to_string()));
}

#[test]
fn a_name_with_a_root_marker_is_refused() {
    assert_eq!(target("/srv/up", "/etc/passwd"), Err(Rejection::PathInvalid));
    assert_eq!(target("/srv/up", "/srv/up/a"), Err(Rejection::PathInvalid));
    assert_eq!(target("/srv/up", "\\windows"), Err(Rejection::PathInvalid));
    assert_eq!(target("/srv/up", "\\\\server\\share"), Err(Rejection::PathInvalid));
    assert_eq!(target("/srv/up", "/"), Err(Rejection::PathInvalid));
}

#[test]
fn a_name_with_a_drive_marker_is_refused() {
    assert_eq!(target("/srv/up", "C:\\x"), Err(Rejection::PathInvalid));
    assert_eq!(target("/srv/up", "c:x"), Err(Rejection::PathInvalid));
    assert_eq!(target("/srv/up", "z:"), Err(Rejection::PathInvalid));
}

#[test]
fn a_colon_behind_no_letter_marks_no_drive() {
    assert_eq!(target("/srv/up", "1:x"), Ok("/srv/up/1:x".to_string()));
    assert_eq!(target("/srv/up", "ab:x"), Ok("/srv/up/ab:x".to_string()));
    assert_eq!(target("/srv/up", ":"), Ok("/srv/up/:".to_string()));
}

#[test]
fn names_beyond_ascii_are_accepted() {
    assert_eq!(target("/srv/up", "été/ß.txt"), Ok("/srv/up/été/ß.txt".to_string()));
}

#[test]
fn every_accepted_target_begins_with_the_root() {
    let roots = ["", "/", "/srv/up", "/srv/up/", "relative/root", "C:\\up"];
    let names = ["a", "a/b", ".x", "x.", "a b", "é", "a\\b", "..", "/a", "\\a", "a:..", "q:"];
    for root in roots {
        for name in names {
            let plain = !name.contains("..")
                && !name.starts_with('/')
                && !name.starts_with('\\')
                && !(name.len() >= 2
                    && name.as_bytes()[0].is_ascii_alphabetic()
                    && name.as_bytes()[1] == b':');
            match target(root, name) {
                Ok(path) => {
                    assert!(plain);
                    assert!(path.starts_with(root));
                    assert!(path.ends_with(name));
                    assert!(!path[root.len()..].contains(".."));
                }
                Err(rejection) => {
                    assert!(!plain);
                    assert_eq!(rejection, Rejection::PathInvalid);
                }
            }
        }
    }
}

#[test]
fn a_target_can_be_cloned() {
    let first = validate("/srv/up", "a").unwrap();
    let second = first.clone();
    assert_eq!(first, second);
    assert_eq!(second.as_str(), "/srv/up/a");
}

#[test]
fn the_characters_of_a_text() {
    assert_eq!(chars_of(""), Vec::<char>::new());
    assert_eq!(chars_of("a/é"), vec!['a', '/', 'é']);
}

#[test]
fn finding_the_parent_segment() {
    assert!(contains_parent_segment(&chars("..")));
    assert!(contains_parent_segment(&chars("a/../b")));
    assert!(contains_parent_segment(&chars("x..")));
    assert!(!contains_parent_segment(&chars("")));
    assert!(!contains_parent_segment(&chars(".")));
    assert!(!contains_parent_segment(&chars("./.")));
    assert!(!contains_parent_segment(&chars(".a.")));
}

#[test]
fn telling_relative_names() {
    assert!(relative(&chars("")));
    assert!(relative(&chars("a")));
    assert!(relative(&chars("a/b")));
    assert!(relative(&chars(":a")));
    assert!(relative(&chars("a")));
    assert!(!relative(&chars("/")));
    assert!(!relative(&chars("\\")));
    assert!(!relative(&chars("a:")));
    assert!(!relative(&chars("Z:\\")));
    assert!(relative(&chars("[:")));
    assert!(relative(&chars("@:")));
    assert!(relative(&chars("`:")));
    assert!(relative(&chars("{:")));
}

#[test]
fn telling_prefixes() {
    assert!(begins_with(&chars("/srv/up/a"), &chars("/srv/up")));
    assert!(begins_with(&chars("abc"), &chars("")));
    assert!(begins_with(&chars("abc"), &chars("abc")));
    assert!(!begins_with(&chars("ab"), &chars("abc")));
    assert!(!begins_with(&chars("/srv/down/a"), &chars("/srv/up")));
}

#[test]
fn joining_paths() {
    assert_eq!(SEPARATOR, '/');
    assert_eq!(join_paths("/srv/up", "a"), "/srv/up/a");
    assert_eq!(join_paths("/srv/up/", "a"), "/srv/up/a");
    assert_eq!(join_paths("up\\", "a"), "up\\a");
    assert_eq!(join_paths("", "a"), "a");
    assert_eq!(join_paths("/srv/up", ""), "/srv/up/");
}

#[test]
fn a_name_is_read_from_its_bytes() {
    assert_eq!(read_file_name(b"a/b.txt".to_vec()), Ok("a/b.txt".to_string()));
    assert_eq!(read_file_name("é".as_bytes().to_vec()), Ok("é".to_string()));
}

#[test]
fn an_empty_payload_carries_no_name() {
    assert_eq!(
        read_file_name(vec![]),
        Err(Failure::Rejected { rejection: Rejection::PathInvalid })
    );
}

#[test]
fn bytes_that_are_no_text_carry_no_name() {
    let refused = Err(Failure::Rejected { rejection: Rejection::PathInvalid });
    assert_eq!(read_file_name(vec![0xff]), refused);
    assert_eq!(read_file_name(vec![b'a', 0xc3]), refused);
    assert_eq!(read_file_name(vec![0xed, 0xa0, 0x80]), refused);
    assert_eq!(read_file_name(vec![0xc0, 0xaf]), refused);
}
