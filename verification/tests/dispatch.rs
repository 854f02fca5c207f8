use uberbot::bot::{accept_message, dissect, reply_text, Bot, CommandContext, Dispatch, Inbound};
use uberbot::history::MessageHistory;
use uberbot::string_map::StringMap;

type Echo = fn(CommandContext) -> String;

fn echo(ctx: CommandContext) -> String {
    ctx.content.unwrap_or_default()
}

fn shout(ctx: CommandContext) -> String {
    ctx.content.unwrap_or_default().to_uppercase()
}

fn bot_with(prefixes: &[&str]) -> Bot<Echo, &'static str> {
    Bot::new(prefixes.iter().map(|p| p.to_string()).collect(), None)
}

#[test]
fn command_is_resolved_and_its_answer_sent() {
    let mut bot = bot_with(&["!"]);
    bot.add_command("ev".to_string(), echo as Echo);
    let mut history = MessageHistory::new(4);
    match bot.handle_message(&mut history, "#chan", "alice", "!ev 2+2") {
        Ok(Dispatch::Command { handler, ctx }) => {
            assert_eq!(ctx.author, "alice");
            assert_eq!(ctx.content.as_deref(), Some("2+2"));
            assert_eq!(reply_text(Ok(handler(ctx))), "2+2");
        }
        _ => panic!("the command was not resolved"),
    }
    assert_eq!(history.last_msg("alice"), None);
}

#[test]
fn later_registration_replaces_a_command() {
    let mut bot = bot_with(&["!"]);
    bot.add_command("ev".to_string(), echo as Echo);
    bot.add_command("ev".to_string(), shout as Echo);
    let mut history = MessageHistory::new(4);
    match bot.handle_message(&mut history, "#chan", "alice", "!ev abc") {
        Ok(Dispatch::Command { handler, ctx }) => assert_eq!(handler(ctx), "ABC"),
        _ => panic!("the command was not resolved"),
    }
}

#[test]
fn unknown_command_is_answered_at_once() {
    let mut bot = bot_with(&["!"]);
    bot.add_command("ev".to_string(), echo as Echo);
    let mut history = MessageHistory::new(4);
    match bot.handle_message(&mut history, "#chan", "alice", "  !nope 1 ") {
        Ok(Dispatch::Reply { text }) => assert_eq!(text, "Unknown command."),
        _ => panic!("expected the reply for an unknown command"),
    }
    assert_eq!(history.last_msgs("alice", 1), None);
}

#[test]
fn empty_command_name_is_dropped() {
    let bot = bot_with(&["!"]);
    let mut history = MessageHistory::new(4);
    assert!(matches!(bot.handle_message(&mut history, "#chan", "alice", "!"), Ok(Dispatch::Dropped)));
    assert!(matches!(
        bot.handle_message(&mut history, "#chan", "alice", "! ev 1"),
        Ok(Dispatch::Dropped)
    ));
    assert_eq!(history.last_msgs("alice", 1), None);
}

#[test]
fn first_configured_prefix_decides() {
    let prefixes = vec!["!".to_string(), "!!".to_string(), "bot: ".to_string()];
    assert_eq!(
        dissect(&prefixes, "!!cmd rest"),
        Some(("!cmd".to_string(), Some("rest".to_string())))
    );
    assert_eq!(
        dissect(&prefixes, "bot: cmd a b"),
        Some(("cmd".to_string(), Some("a b".to_string())))
    );
    assert_eq!(dissect(&prefixes, "!cmd"), Some(("cmd".to_string(), None)));
    assert_eq!(dissect(&prefixes, "cmd rest"), None);
}

#[test]
fn plain_text_goes_to_the_history_trimmed() {
    let mut bot = bot_with(&["!"]);
    assert!(bot.add_trigger("num".to_string(), r"^\d+$".to_string(), "num").is_ok());
    let mut history = MessageHistory::new(2);
    assert!(matches!(
        bot.handle_message(&mut history, "#chan", "alice", "  hello there \t"),
        Ok(Dispatch::Recorded)
    ));
    assert_eq!(history.last_msg("alice"), Some("hello there".to_string()));
}

#[test]
fn sed_pattern_captures_both_groups() {
    let mut bot = bot_with(&["!"]);
    assert!(bot.add_trigger("sed".to_string(), "^s/(.*)/(.*)/".to_string(), "sed").is_ok());
    let mut history = MessageHistory::new(2);
    match bot.handle_message(&mut history, "#chan", "alice", "s/foo/bar/") {
        Ok(Dispatch::Trigger { handler, ctx }) => {
            assert_eq!(*handler, "sed");
            assert_eq!(ctx.author, "alice");
            assert_eq!(ctx.captures.get(0), Some("s/foo/bar/"));
            assert_eq!(ctx.captures.get(1), Some("foo"));
            assert_eq!(ctx.captures.get(2), Some("bar"));
            assert_eq!(ctx.captures.get(3), None);
        }
        _ => panic!("the trigger did not fire"),
    }
    assert_eq!(history.last_msg("alice"), None);
}

#[test]
fn earlier_trigger_wins() {
    let mut bot = bot_with(&["!"]);
    bot.add_trigger("first".to_string(), "a+".to_string(), "first").unwrap();
    bot.add_trigger("second".to_string(), "a".to_string(), "second").unwrap();
    let mut history = MessageHistory::new(2);
    match bot.handle_message(&mut history, "#chan", "alice", "caaat") {
        Ok(Dispatch::Trigger { handler, ctx }) => {
            assert_eq!(*handler, "first");
            assert_eq!(ctx.captures.get(0), Some("aaa"));
        }
        _ => panic!("the trigger did not fire"),
    }
    match bot.handle_message(&mut history, "#chan", "alice", "bbb") {
        Ok(Dispatch::Recorded) => {}
        _ => panic!("expected the message to be recorded"),
    }
}

#[test]
fn named_groups_are_found_by_name() {
    let mut bot = bot_with(&["!"]);
    bot.add_trigger(
        "sed".to_string(),
        r"^(?:(?<u>\S+):\s+)?s/(?<r>[^/]*)/(?<w>[^/]*)(?:/(?<f>[a-z]*))?\s*".to_string(),
        "sed",
    )
    .unwrap();
    let mut history = MessageHistory::new(2);
    match bot.handle_message(&mut history, "#chan", "alice", "s/foo/bar/gi") {
        Ok(Dispatch::Trigger { ctx, .. }) => {
            assert_eq!(ctx.captures.name("u"), None);
            assert_eq!(ctx.captures.name("r"), Some("foo"));
            assert_eq!(ctx.captures.name("w"), Some("bar"));
            assert_eq!(ctx.captures.name("f"), Some("gi"));
            assert_eq!(ctx.captures.name("x"), None);
            // the group that took no part keeps its index
            assert_eq!(ctx.captures.get(0), Some("s/foo/bar/gi"));
            assert_eq!(ctx.captures.get(1), None);
            assert_eq!(ctx.captures.get(2), Some("foo"));
            assert_eq!(ctx.captures.get(3), Some("bar"));
            assert_eq!(ctx.captures.get(4), Some("gi"));
            assert_eq!(ctx.captures.get(5), None);
        }
        _ => panic!("the trigger did not fire"),
    }
}

#[test]
fn suppressed_trigger_consumes_the_message() {
    let mut ignored: StringMap<Vec<String>> = StringMap::new();
    ignored.insert("title".to_string(), vec!["#quiet".to_string()]);
    let mut bot: Bot<Echo, &'static str> = Bot::new(vec!["!".to_string()], Some(ignored));
    bot.add_trigger("title".to_string(), "http".to_string(), "title").unwrap();
    bot.add_trigger("any".to_string(), ".".to_string(), "any").unwrap();
    let mut history = MessageHistory::new(2);
    assert!(matches!(
        bot.handle_message(&mut history, "#quiet", "alice", "see http://x.y"),
        Ok(Dispatch::Ignored)
    ));
    assert_eq!(history.last_msgs("alice", 1), None);
    match bot.handle_message(&mut history, "#loud", "alice", "see http://x.y") {
        Ok(Dispatch::Trigger { handler, .. }) => assert_eq!(*handler, "title"),
        _ => panic!("the trigger did not fire"),
    }
}

#[test]
fn suppression_acts_at_dispatch_and_not_at_registration() {
    let mut ignored: StringMap<Vec<String>> = StringMap::new();
    ignored.insert("title".to_string(), vec!["title".to_string()]);
    let mut bot: Bot<Echo, &'static str> = Bot::new(vec!["!".to_string()], Some(ignored));
    assert!(bot.add_trigger("title".to_string(), "http".to_string(), "title").is_ok());
    let mut history = MessageHistory::new(2);
    match bot.handle_message(&mut history, "#chan", "alice", "see http://x.y") {
        Ok(Dispatch::Trigger { handler, .. }) => assert_eq!(*handler, "title"),
        _ => panic!("the trigger did not fire"),
    }
    assert!(matches!(
        bot.handle_message(&mut history, "title", "alice", "see http://x.y"),
        Ok(Dispatch::Ignored)
    ));
}

#[test]
fn optional_group_keeps_its_index_in_a_match() {
    let mut bot = bot_with(&["!"]);
    bot.add_trigger("ab".to_string(), "(a)?(b)".to_string(), "ab").unwrap();
    let mut history = MessageHistory::new(2);
    match bot.handle_message(&mut history, "#chan", "alice", "b") {
        Ok(Dispatch::Trigger { ctx, .. }) => {
            assert_eq!(ctx.captures.get(0), Some("b"));
            assert_eq!(ctx.captures.get(1), None);
            assert_eq!(ctx.captures.get(2), Some("b"));
        }
        _ => panic!("the trigger did not fire"),
    }
}

#[test]
fn named_group_under_an_empty_repetition_is_registered() {
    let mut bot = bot_with(&["!"]);
    assert!(bot.add_trigger("zero".to_string(), "(?<n>a){0}b".to_string(), "zero").is_ok());
    assert!(bot.add_trigger("late".to_string(), "(x){0}(?<m>y)".to_string(), "late").is_ok());
    let mut history = MessageHistory::new(2);
    match bot.handle_message(&mut history, "#chan", "alice", "abc") {
        Ok(Dispatch::Trigger { handler, ctx }) => {
            assert_eq!(*handler, "zero");
            assert_eq!(ctx.captures.get(0), Some("b"));
            assert_eq!(ctx.captures.name("n"), None);
        }
        _ => panic!("the trigger did not fire"),
    }
    match bot.handle_message(&mut history, "#chan", "alice", "y") {
        Ok(Dispatch::Trigger { handler, ctx }) => {
            assert_eq!(*handler, "late");
            assert_eq!(ctx.captures.get(0), Some("y"));
        }
        _ => panic!("the trigger did not fire"),
    }
}

#[test]
fn invalid_pattern_is_refused_at_registration() {
    let mut bot = bot_with(&["!"]);
    assert!(bot.add_trigger("bad".to_string(), "(".to_string(), "bad").is_err());
    let mut history = MessageHistory::new(2);
    assert!(matches!(
        bot.handle_message(&mut history, "#chan", "alice", "("),
        Ok(Dispatch::Recorded)
    ));
}

#[test]
fn pattern_that_gives_up_is_a_typed_failure() {
    let mut bot = bot_with(&["!"]);
    bot.add_trigger("slow".to_string(), r"(?:a+)+(?=\d)$(?<!x)b".to_string(), "slow").unwrap();
    let mut history = MessageHistory::new(2);
    let text = "a".repeat(40);
    match bot.handle_message(&mut history, "#chan", "alice", &text) {
        Err(e) => assert_eq!(e.trigger, "slow"),
        Ok(_) => panic!("expected the evaluation to fail"),
    }
    assert_eq!(history.last_msgs("alice", 1), None);
}

#[test]
fn handler_failure_becomes_an_error_reply() {
    assert_eq!(reply_text(Err("boom".to_string())), "Error: boom");
    assert_eq!(reply_text(Ok("fine".to_string())), "fine");
}

#[test]
fn only_channel_messages_with_an_author_are_routed() {
    for origin in ["#chan", "&local", "+modeless", "!safe"] {
        match accept_message(origin, Some("alice".to_string())) {
            Inbound::Routed { author } => assert_eq!(author, "alice"),
            _ => panic!("expected the message to be routed"),
        }
        assert!(matches!(accept_message(origin, None), Inbound::Anonymous));
    }
    for origin in ["alice", "", "chan#", "ünïcode"] {
        assert!(matches!(accept_message(origin, Some("bob".to_string())), Inbound::Private));
        assert!(matches!(accept_message(origin, None), Inbound::Private));
    }
}

#[test]
fn pattern_that_ends_in_a_space_cannot_match_a_trimmed_line() {
    let mut bot = bot_with(&["!"]);
    bot.add_trigger("sed".to_string(), "^s/(.*)/(.*)/ ".to_string(), "sed").unwrap();
    let mut history = MessageHistory::new(2);
    assert!(matches!(
        bot.handle_message(&mut history, "#chan", "alice", "s/foo/bar/ "),
        Ok(Dispatch::Recorded)
    ));
    assert_eq!(history.last_msg("alice"), Some("s/foo/bar/".to_string()));
}

#[test]
fn command_line_with_registered_name_after_each_prefix() {
    let mut bot = bot_with(&["!", "bot, "]);
    bot.add_command("cmd".to_string(), echo as Echo);
    let mut history = MessageHistory::new(2);
    for line in ["!cmd rest of it", "bot, cmd rest of it"] {
        match bot.handle_message(&mut history, "#chan", "alice", line) {
            Ok(Dispatch::Command { handler, ctx }) => {
                assert_eq!(ctx.content.as_deref(), Some("rest of it"));
                assert_eq!(handler(ctx), "rest of it");
            }
            _ => panic!("the command was not resolved"),
        }
    }
}
