use sudocker::{anchor, authorize, build_wish, decide, verdict, Decision, Denial, Policy, Trial};
use sudocker::Trial::{Hit, Invalid, Miss};

fn strings(v: &[&str]) -> Vec<String> {
    v.iter().map(|s| s.to_string()).collect()
}

fn alice_policy(patterns: &[&str]) -> Policy {
    let mut p = Policy::new();
    p.allow("alice".to_string(), strings(patterns));
    p
}

#[test]
fn wish_joins_program_and_args() {
    assert_eq!(build_wish("docker", &strings(&["ps", "-a"])), "docker ps -a");
    assert_eq!(build_wish("docker", &strings(&["rm", "-f", "c1"])), "docker rm -f c1");
    assert_eq!(build_wish("docker", &Vec::new()), "docker");
    assert_eq!(build_wish("docker", &strings(&["run", "a b"])), "docker run a b");
}

#[test]
fn anchor_adds_missing_anchors() {
    assert_eq!(anchor("ps.*"), "^ps.*$");
    assert_eq!(anchor(""), "^$");
    assert_eq!(anchor("^ps"), "^ps$");
    assert_eq!(anchor("ps$"), "^ps$");
    assert_eq!(anchor("é"), "^é$");
}

#[test]
fn anchor_keeps_anchored_pattern() {
    assert_eq!(anchor("^inspect .+$"), "^inspect .+$");
    assert_eq!(anchor("^$"), "^$");
    assert_eq!(anchor(&anchor("docker ps.*")), "^docker ps.*$");
}

#[test]
fn permit_by_first_matching_pattern() {
    let policy = alice_policy(&["docker ps.*", "^inspect .+$"]);
    let wish = build_wish("docker", &strings(&["ps", "-a"]));
    assert_eq!(wish, "docker ps -a");
    let d = authorize(&policy, &"alice".to_string(), &wish).unwrap();
    assert_eq!(d, Decision::Permit);
}

#[test]
fn pattern_must_match_whole_line() {
    let policy = alice_policy(&["ps.*", "^inspect .+$"]);
    let wish = build_wish("docker", &strings(&["ps", "-a"]));
    let d = authorize(&policy, &"alice".to_string(), &wish).unwrap();
    assert_eq!(d, Decision::Deny(Denial::NoMatch));
}

#[test]
fn deny_when_no_pattern_matches() {
    let policy = alice_policy(&["docker ps.*", "^inspect .+$"]);
    let wish = build_wish("docker", &strings(&["rm", "-f", "c1"]));
    assert_eq!(wish, "docker rm -f c1");
    let d = authorize(&policy, &"alice".to_string(), &wish).unwrap();
    assert_eq!(d, Decision::Deny(Denial::NoMatch));
}

#[test]
fn unknown_user_is_denied() {
    let policy = alice_policy(&[".*"]);
    let wish = "docker ps".to_string();
    let d = authorize(&policy, &"bob".to_string(), &wish).unwrap();
    assert_eq!(d, Decision::Deny(Denial::UnknownUser));
    let empty = Policy::new();
    let d = authorize(&empty, &"alice".to_string(), &wish).unwrap();
    assert_eq!(d, Decision::Deny(Denial::UnknownUser));
}

#[test]
fn user_with_empty_list_is_denied() {
    let policy = alice_policy(&[]);
    let d = authorize(&policy, &"alice".to_string(), &"docker".to_string()).unwrap();
    assert_eq!(d, Decision::Deny(Denial::NoMatch));
}

#[test]
fn first_match_skips_later_broken_pattern() {
    let policy = alice_policy(&["docker ps.*", "docker (ps"]);
    let d = authorize(&policy, &"alice".to_string(), &"docker ps -a".to_string()).unwrap();
    assert_eq!(d, Decision::Permit);
}

#[test]
fn broken_pattern_stops_before_later_match() {
    let policy = alice_policy(&["docker (rm", "docker rm .*"]);
    let e = authorize(&policy, &"alice".to_string(), &"docker rm -f c1".to_string()).unwrap_err();
    assert_eq!(e.index, 0);
    let policy = alice_policy(&["docker ps", "docker [rm", "docker rm .*"]);
    let e = authorize(&policy, &"alice".to_string(), &"docker rm -f c1".to_string()).unwrap_err();
    assert_eq!(e.index, 1);
}

#[test]
fn anchoring_blocks_substring_match() {
    let pats = strings(&["docker ps"]);
    assert_eq!(decide(&pats, &"docker ps; rm".to_string()).unwrap(), Decision::Deny(Denial::NoMatch));
    assert_eq!(decide(&pats, &"x docker ps".to_string()).unwrap(), Decision::Deny(Denial::NoMatch));
    assert_eq!(decide(&pats, &"docker ps".to_string()).unwrap(), Decision::Permit);
}

#[test]
fn later_allow_replaces_list() {
    let mut policy = alice_policy(&["docker ps"]);
    policy.allow("alice".to_string(), strings(&["docker images"]));
    let user = "alice".to_string();
    assert_eq!(authorize(&policy, &user, &"docker ps".to_string()).unwrap(), Decision::Deny(Denial::NoMatch));
    assert_eq!(authorize(&policy, &user, &"docker images".to_string()).unwrap(), Decision::Permit);
    assert_eq!(policy.patterns(&user).unwrap(), &strings(&["docker images"]));
    assert!(policy.patterns(&"bob".to_string()).is_none());
}

#[test]
fn verdict_takes_first_decisive_trial() {
    assert_eq!(verdict(&vec![]), Ok(Decision::Deny(Denial::NoMatch)));
    assert_eq!(verdict(&vec![Miss, Miss]), Ok(Decision::Deny(Denial::NoMatch)));
    assert_eq!(verdict(&vec![Hit, Invalid]), Ok(Decision::Permit));
    assert_eq!(verdict(&vec![Miss, Hit, Invalid]), Ok(Decision::Permit));
    assert_eq!(verdict(&vec![Miss, Invalid, Hit]), Err(1));
    assert_eq!(verdict(&vec![Invalid]), Err(0));
}
