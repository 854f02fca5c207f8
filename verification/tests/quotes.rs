use uberbot::bot::CommandContext;
use uberbot::commands::debug::{LastMsg, Sleep};
use uberbot::commands::help::Help;
use uberbot::commands::quotes::{Grab, GrabStep, Quot, Search, SearchNext};
use uberbot::database::Quote;
use uberbot::history::MessageHistory;
use uberbot::text::NumberError;

fn ctx(author: &str, content: Option<&str>) -> CommandContext {
    CommandContext { author: author.to_string(), content: content.map(|c| c.to_string()) }
}

fn quote(author: &str, text: &str) -> Quote {
    Quote { author: author.to_string(), quote: text.to_string() }
}

fn history() -> MessageHistory {
    let mut h = MessageHistory::new(5);
    h.add_message("bob", "one".to_string());
    h.add_message("bob", "two".to_string());
    h.add_message("bob", "three".to_string());
    h
}

fn reply(step: Result<GrabStep, NumberError>) -> String {
    match step {
        Ok(GrabStep::Reply(text)) => text,
        _ => panic!("expected a reply"),
    }
}

#[test]
fn grab_takes_the_last_message() {
    match Grab.execute(&ctx("alice", Some("bob")), &history()) {
        Ok(GrabStep::Store { quote: q, taken }) => {
            assert_eq!(q, quote("bob", "three"));
            assert_eq!(taken, 1);
            assert_eq!(Grab::stored(taken), "Quote added (1 messages).");
        }
        _ => panic!("expected a quote to store"),
    }
}

#[test]
fn grab_joins_several_messages_oldest_first() {
    match Grab.execute(&ctx("alice", Some("2 bob")), &history()) {
        Ok(GrabStep::Store { quote: q, taken }) => {
            assert_eq!(q, quote("bob", "two | three"));
            assert_eq!(taken, 2);
        }
        _ => panic!("expected a quote to store"),
    }
    match Grab.execute(&ctx("alice", Some("10 bob")), &history()) {
        Ok(GrabStep::Store { quote: q, taken }) => {
            assert_eq!(q, quote("bob", "one | two | three"));
            assert_eq!(taken, 3);
            assert_eq!(Grab::stored(12), "Quote added (12 messages).");
        }
        _ => panic!("expected a quote to store"),
    }
}

#[test]
fn grab_refuses() {
    let h = history();
    assert_eq!(reply(Grab.execute(&ctx("alice", None), &h)), "Invalid usage.");
    assert_eq!(
        reply(Grab.execute(&ctx("alice", Some("0 bob")), &h)),
        "So are you going to grab anything?"
    );
    assert_eq!(reply(Grab.execute(&ctx("bob", Some("bob")), &h)), "You can't grab yourself.");
    assert_eq!(reply(Grab.execute(&ctx("bob", Some("3 bob")), &h)), "You can't grab yourself.");
    assert_eq!(
        reply(Grab.execute(&ctx("alice", Some("carol")), &h)),
        "No previous messages to grab."
    );
    assert!(matches!(
        Grab.execute(&ctx("alice", Some("two bob")), &h),
        Err(NumberError::InvalidDigit)
    ));
    assert!(matches!(Grab.execute(&ctx("alice", Some(" bob")), &h), Err(NumberError::Empty)));
    assert!(matches!(
        Grab.execute(&ctx("alice", Some("99999999999999999999999 bob")), &h),
        Err(NumberError::TooLarge)
    ));
}

#[test]
fn quot_shows_the_quote() {
    assert_eq!(Quot.execute(Some(quote("bob", "hi there"))), "\"hi there\" ~bob");
    assert_eq!(Quot.execute(None), "No quotes found from this user.");
}

#[test]
fn search_shows_the_results() {
    let s = Search::new(2);
    assert_eq!(s.page_size(), 2);
    assert_eq!(s.query(&ctx("alice", Some("cat food"))), Ok("cat food".to_string()));
    assert_eq!(s.query(&ctx("alice", None)), Err("Invalid usage.".to_string()));
    assert_eq!(s.execute(&vec![]), "No results.");
    assert_eq!(s.execute(&vec![quote("bob", "a cat")]), "\"a cat\" ~bob\r\n");
    assert_eq!(
        s.execute(&vec![quote("bob", "a cat"), quote("eve", "cat!")]),
        "\"a cat\" ~bob\r\n\"cat!\" ~eve\r\nUse 'qnext' for more results."
    );
}

#[test]
fn next_shows_the_results() {
    let s = SearchNext::new(1);
    assert_eq!(s.page_size(), 1);
    assert_eq!(s.execute(&None), "You need to initiate a search first using 'qsearch'.");
    assert_eq!(s.execute(&Some(vec![])), "No results.");
    assert_eq!(
        s.execute(&Some(vec![quote("bob", "a cat")])),
        "\"a cat\" ~bob\r\nUse 'qnext' again for more results."
    );
    assert_eq!(
        SearchNext::new(3).execute(&Some(vec![quote("bob", "a cat")])),
        "\"a cat\" ~bob\r\n"
    );
}

#[test]
fn help_names_the_version() {
    let text = Help.execute("1.2.3");
    assert!(text.starts_with("=- \x1d\x02Überbot\x0f 1.2.3 -=\r\n * waifu <category>"));
    assert!(text.ends_with("Spotify links and a subset of sed expressions."));
    assert_eq!(text.lines().count(), 6);
}

#[test]
fn lastmsg_shows_the_log() {
    let h = history();
    assert_eq!(
        LastMsg.execute(&ctx("alice", Some("bob")), &h),
        "bob: Some([\"one\", \"two\", \"three\"])"
    );
    assert_eq!(LastMsg.execute(&ctx("alice", None), &h), "alice: None");
}

#[test]
fn sleep_reads_its_duration() {
    assert_eq!(Sleep.duration(&ctx("alice", Some("15"))), Ok(Some(15)));
    assert_eq!(Sleep.duration(&ctx("alice", None)), Ok(None));
    assert_eq!(Sleep.duration(&ctx("alice", Some("soon"))), Err(NumberError::InvalidDigit));
    assert_eq!(Sleep.execute(Some(15)), "Slept 15 seconds");
    assert_eq!(Sleep.execute(Some(0)), "Slept 0 seconds");
    assert_eq!(Sleep.execute(None), "Invalid usage.");
}
