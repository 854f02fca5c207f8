use uberbot::bot::TriggerContext;
use uberbot::bots::sed::{resolve, SedError};
use uberbot::commands::sed::Sed;
use uberbot::history::MessageHistory;
use uberbot::regex_util::OwnedCaptures;

fn named() -> Vec<(String, usize)> {
    vec![("u".to_string(), 1), ("r".to_string(), 2), ("w".to_string(), 3), ("f".to_string(), 4)]
}

fn line(author: &str, user: Option<&str>, find: &str, with: &str, flags: Option<&str>) -> TriggerContext {
    let groups = vec![
        Some("the line".to_string()),
        user.map(|u| u.to_string()),
        Some(find.to_string()),
        Some(with.to_string()),
        flags.map(|f| f.to_string()),
    ];
    TriggerContext { author: author.to_string(), captures: OwnedCaptures::new(&named(), groups) }
}

fn history() -> MessageHistory {
    let mut h = MessageHistory::new(3);
    h.add_message("alice", "older".to_string());
    h.add_message("alice", "foo Foo foo".to_string());
    h.add_message("bob", "a cat and a cat".to_string());
    h
}

#[test]
fn own_message_is_corrected_in_place() {
    let mut h = history();
    let answer = Sed.execute(&line("alice", None, "foo", "bar", None), &mut h);
    assert_eq!(answer.ok(), Some("<alice> bar Foo foo".to_string()));
    assert_eq!(h.last_msgs("alice", 5), Some(vec!["older".to_string(), "bar Foo foo".to_string()]));
}

#[test]
fn flags_choose_all_matches_and_case() {
    let mut h = history();
    let answer = Sed.execute(&line("alice", None, "foo", "bar", Some("g")), &mut h);
    assert_eq!(answer.ok(), Some("<alice> bar Foo bar".to_string()));
    let mut h = history();
    let answer = Sed.execute(&line("alice", None, "FOO", "bar", Some("i")), &mut h);
    assert_eq!(answer.ok(), Some("<alice> bar Foo foo".to_string()));
    let mut h = history();
    let answer = Sed.execute(&line("alice", None, "foo", "bar", Some("xig")), &mut h);
    assert_eq!(answer.ok(), Some("<alice> bar bar bar".to_string()));
    assert_eq!(h.last_msg("alice"), Some("bar bar bar".to_string()));
}

#[test]
fn groups_are_expanded_in_the_replacement() {
    let mut h = history();
    let answer = Sed.execute(&line("alice", None, "(f)(oo)", "$2$1", None), &mut h);
    assert_eq!(answer.ok(), Some("<alice> oof Foo foo".to_string()));
}

#[test]
fn somebody_elses_message_is_only_shown() {
    let mut h = history();
    let answer = Sed.execute(&line("alice", Some("bob"), "cat", "dog", Some("g")), &mut h);
    assert_eq!(answer.ok(), Some("(edited by alice) <bob> a dog and a dog".to_string()));
    assert_eq!(h.last_msg("bob"), Some("a cat and a cat".to_string()));
    assert_eq!(h.last_msg("alice"), Some("foo Foo foo".to_string()));
}

#[test]
fn nothing_to_correct() {
    let mut h = history();
    let answer = Sed.execute(&line("carol", None, "a", "b", None), &mut h);
    assert_eq!(answer.ok(), Some("No previous messages found.".to_string()));
    let answer = Sed.execute(&line("alice", Some("carol"), "a", "b", None), &mut h);
    assert_eq!(answer.ok(), Some("No previous messages found.".to_string()));
    let groups = vec![Some("x".to_string()), None, Some("a".to_string()), None, None];
    let ctx = TriggerContext { author: "alice".to_string(), captures: OwnedCaptures::new(&named(), groups) };
    assert_eq!(Sed.execute(&ctx, &mut h).ok(), Some("Invalid usage.".to_string()));
    assert_eq!(h.last_msg("alice"), Some("foo Foo foo".to_string()));
}

#[test]
fn pattern_that_cannot_be_built_is_an_error() {
    let mut h = history();
    assert!(Sed.execute(&line("alice", None, "(", "x", None), &mut h).is_err());
    assert!(Sed.execute(&line("alice", None, "(", "x", Some("g")), &mut h).is_err());
    assert_eq!(h.last_msg("alice"), Some("foo Foo foo".to_string()));
}

#[test]
fn command_line_is_applied_to_a_message() {
    assert_eq!(resolve("hello world", "s/world/there/").ok(), Some(Some("hello there".to_string())));
    assert_eq!(resolve("a a a", "s/a/b/g").ok(), Some(Some("b b b".to_string())));
    assert_eq!(resolve("hello", "nothing to do").ok(), Some(None));
    assert_eq!(resolve("hello", "say s/a/b/").ok(), Some(None));
}

#[test]
fn command_line_can_fail() {
    assert!(matches!(resolve("hello", "s/(/x/"), Err(SedError::SedRegex(_))));
    assert!(matches!(resolve("hello", "s/a/b/z"), Err(SedError::SedRegex(_))));
    let long = format!("s/a/{}/", "b".repeat(600));
    match resolve("a", &long) {
        Err(e @ SedError::Capacity(_)) => assert_eq!(e.message(), "insufficient capacity"),
        _ => panic!("expected the answer not to fit"),
    }
    let fits = format!("s/a/{}/", "b".repeat(512));
    assert_eq!(resolve("a", &fits).ok(), Some(Some("b".repeat(512))));
}
