use sudocker::{chars_of, group_id, lines_of, parse_u32, split_chars, trim_end_chars, user_by_uid, RegistryError};

const PASSWD: &str = "root:x:0:0:root:/root:/bin/bash\nalice:x:1000:1000:Alice:/home/alice:/bin/sh\nbob:x:1001:1001::/home/bob:/bin/sh\n";
const GROUP: &str = "root:x:0:\nwheel:x:10:alice\ndocker:x:999:alice,bob\n";

fn chars(s: &str) -> Vec<char> {
    s.chars().collect()
}

#[test]
fn uid_resolves_to_name() {
    assert_eq!(user_by_uid(PASSWD, 1000), Ok("alice".to_string()));
    assert_eq!(user_by_uid(PASSWD, 0), Ok("root".to_string()));
    assert_eq!(user_by_uid(PASSWD, 1001), Ok("bob".to_string()));
}

#[test]
fn unknown_uid_is_not_found() {
    assert_eq!(user_by_uid(PASSWD, 4242), Err(RegistryError::UnknownUid { uid: 4242 }));
    assert_eq!(user_by_uid("", 0), Err(RegistryError::UnknownUid { uid: 0 }));
}

#[test]
fn group_resolves_to_id() {
    assert_eq!(group_id(GROUP, "docker"), Ok(999));
    assert_eq!(group_id(GROUP, "wheel"), Ok(10));
}

#[test]
fn absent_group_is_not_found() {
    assert_eq!(group_id("root:x:0:\nwheel:x:10:alice\n", "docker"), Err(RegistryError::UnknownGroup));
    assert_eq!(group_id(GROUP, "dock"), Err(RegistryError::UnknownGroup));
}

#[test]
fn first_record_wins() {
    assert_eq!(user_by_uid("a:x:5:\nb:x:5:\n", 5), Ok("a".to_string()));
    assert_eq!(group_id("g:x:1:\ng:x:2:\n", "g"), Ok(1));
}

#[test]
fn short_line_is_malformed() {
    assert_eq!(user_by_uid("root:x:0:0\nbroken\nalice:x:1000:\n", 1000), Err(RegistryError::Malformed { line: 2 }));
    assert_eq!(user_by_uid("root:x:0:0\n\nalice:x:1000:\n", 1000), Err(RegistryError::Malformed { line: 2 }));
    assert_eq!(group_id("docker:x\n", "docker"), Err(RegistryError::Malformed { line: 1 }));
}

#[test]
fn bad_id_is_a_parse_error() {
    assert_eq!(user_by_uid("root:x:zero:0\n", 0), Err(RegistryError::BadNumber { line: 1 }));
    assert_eq!(user_by_uid("root:x:4294967296:0\n", 0), Err(RegistryError::BadNumber { line: 1 }));
    assert_eq!(group_id("wheel:x:10:\ndocker:x:-1:\n", "docker"), Err(RegistryError::BadNumber { line: 2 }));
}

#[test]
fn group_lookup_passes_over_other_broken_lines() {
    assert_eq!(group_id("junk\nother:x:oops:\ndocker:x:999:\n", "docker"), Ok(999));
}

#[test]
fn trailing_white_space_and_last_line() {
    assert_eq!(user_by_uid("alice:x:1000 \r\n", 1000), Ok("alice".to_string()));
    assert_eq!(group_id("docker:x:999", "docker"), Ok(999));
    assert_eq!(user_by_uid("alice:x:+1000:", 1000), Ok("alice".to_string()));
}

#[test]
fn lines_split_and_trim() {
    assert_eq!(lines_of("a \nb\r\n\nc"), vec![chars("a"), chars("b"), chars(""), chars("c")]);
    assert_eq!(lines_of("a\n"), vec![chars("a")]);
    assert!(lines_of("").is_empty());
}

#[test]
fn chars_split_and_trim() {
    assert_eq!(chars_of("aé:"), vec!['a', 'é', ':']);
    assert_eq!(split_chars(&chars("a::b"), ':'), vec![chars("a"), chars(""), chars("b")]);
    assert_eq!(split_chars(&chars(""), ':'), vec![chars("")]);
    assert_eq!(trim_end_chars(&chars("ab \t\u{a0}")), chars("ab"));
    assert_eq!(trim_end_chars(&chars("  ")), chars(""));
}

#[test]
fn decimal_parsing() {
    assert_eq!(parse_u32(&chars("0")), Some(0));
    assert_eq!(parse_u32(&chars("4294967295")), Some(4294967295));
    assert_eq!(parse_u32(&chars("4294967296")), None);
    assert_eq!(parse_u32(&chars("+7")), Some(7));
    assert_eq!(parse_u32(&chars("+")), None);
    assert_eq!(parse_u32(&chars("")), None);
    assert_eq!(parse_u32(&chars("-1")), None);
    assert_eq!(parse_u32(&chars("12a")), None);
    assert_eq!(parse_u32(&chars("007")), Some(7));
}
