use uberbot::bot::CommandContext;
use uberbot::commands::playground::util::{extract_relevant_lines, format_play_eval_stderr, StrChunks};
use uberbot::commands::playground::{
    gist_link, large_output, play_code, play_output, play_reply, too_large, PlayError, PlayResult,
};
use uberbot::history::MessageHistory;
use uberbot::text::NumberError;

const RAN: &str = "   Compiling playground v0.0.1 (/playground)\nwarning: unused variable\n\nwarning: `playground` (bin \"playground\") generated 1 warning\n    Finished dev [unoptimized] target(s) in 0.5s\n     Running `target/debug/playground`\nthread 'main' panicked\n";

const FAILED: &str = "   Compiling playground v0.0.1 (/playground)\nerror[E0425]: cannot find value `x`\n\nerror: aborting due to previous error\n\n";

fn ctx(author: &str, content: Option<&str>) -> CommandContext {
    CommandContext { author: author.to_string(), content: content.map(|c| c.to_string()) }
}

#[test]
fn program_output_is_shown_where_it_ran() {
    assert_eq!(format_play_eval_stderr(RAN, false), "thread 'main' panicked\n");
    assert_eq!(
        format_play_eval_stderr(RAN, true),
        "warning: unused variable\n\nthread 'main' panicked\n"
    );
}

#[test]
fn compiler_output_is_shown_where_it_did_not_run() {
    assert_eq!(format_play_eval_stderr(FAILED, false), "error[E0425]: cannot find value `x`\n");
    assert_eq!(format_play_eval_stderr(FAILED, true), "error[E0425]: cannot find value `x`\n");
    assert_eq!(format_play_eval_stderr("", true), "");
}

#[test]
fn warnings_or_output_alone() {
    let quiet = "   Compiling playground v0.0.1 (/playground)\n    Finished dev\n     Running `target/debug/playground`\noops\n";
    assert_eq!(format_play_eval_stderr(quiet, true), "oops\n");
    let silent = "   Compiling playground v0.0.1 (/playground)\nwarning: w\n    Finished dev\n     Running `target/debug/playground`\n";
    assert_eq!(format_play_eval_stderr(silent, true), "warning: w\n");
    assert_eq!(format_play_eval_stderr(silent, false), "");
}

#[test]
fn lines_between_tokens() {
    let text = "a\nSTART here\n\n\nb\nc\n\n\nEND now\nd\n";
    assert_eq!(extract_relevant_lines(text, &["START"], &["END"]), "b\nc\n");
    assert_eq!(extract_relevant_lines(text, &[], &["END"]), "a\nSTART here\n\n\nb\nc\n");
    assert_eq!(extract_relevant_lines(text, &["START"], &[]), "b\nc\n\n\nEND now\nd\n");
    assert_eq!(extract_relevant_lines(text, &["nope"], &["never"]), text);
    // the last start token decides, and of the end tokens the one that ends soonest
    assert_eq!(extract_relevant_lines("x A\n1\nx B\n2\ny C\n3\ny D\n", &["A", "B"], &["C", "D"]), "2\n");
    // a token in the last line leaves nothing after it, one in the first line nothing before it
    assert_eq!(extract_relevant_lines("a\nSTART", &["START"], &[]), "");
    assert_eq!(extract_relevant_lines("END\na", &[], &["END"]), "");
}

#[test]
fn pieces_hold_whole_characters() {
    let mut chunks = StrChunks::new("héllo wörld", 4);
    assert_eq!(chunks.next(), Some("hél".to_string()));
    assert_eq!(chunks.next(), Some("lo w".to_string()));
    assert_eq!(chunks.next(), Some("örl".to_string()));
    assert_eq!(chunks.next(), Some("d".to_string()));
    assert_eq!(chunks.next(), None);
    assert_eq!(chunks.next(), None);
    let mut chunks = StrChunks::new("abc", 3);
    assert_eq!(chunks.next(), Some("abc".to_string()));
    assert_eq!(chunks.next(), None);
    let mut chunks = StrChunks::new("", 3);
    assert_eq!(chunks.next(), None);
}

#[test]
fn a_piece_without_room_is_empty() {
    let mut chunks = StrChunks::new("é", 1);
    assert_eq!(chunks.next(), Some(String::new()));
    assert_eq!(chunks.next(), Some(String::new()));
    let mut chunks = StrChunks::new("aé", 1);
    assert_eq!(chunks.next(), Some("a".to_string()));
    assert_eq!(chunks.next(), Some(String::new()));
}

#[test]
fn code_is_made_of_the_last_messages() {
    let mut h = MessageHistory::new(5);
    h.add_message("alice", "let x = 1;".to_string());
    h.add_message("alice", "x + 1".to_string());
    assert_eq!(play_code(&ctx("alice", Some("1")), &h, false), Ok("x + 1".to_string()));
    assert_eq!(play_code(&ctx("alice", Some("2")), &h, false), Ok("let x = 1;\nx + 1".to_string()));
    assert_eq!(
        play_code(&ctx("alice", Some("2")), &h, true),
        Ok("fn main() { println!(\"{:?}\", {let x = 1;\nx + 1}) }".to_string())
    );
    assert_eq!(play_code(&ctx("alice", Some("0")), &h, false), Ok(String::new()));
}

#[test]
fn code_can_be_missing() {
    let mut h = MessageHistory::new(5);
    h.add_message("alice", "fn main() {}".to_string());
    assert_eq!(play_code(&ctx("alice", None), &h, false), Err(PlayError::NoCount));
    assert_eq!(
        play_code(&ctx("alice", Some("x")), &h, false),
        Err(PlayError::BadCount(NumberError::InvalidDigit))
    );
    assert_eq!(play_code(&ctx("bob", Some("1")), &h, false), Err(PlayError::NoCode));
    assert_eq!(play_code(&ctx("alice", Some("1")), &h, true), Err(PlayError::MainInDbg));
    assert_eq!(play_code(&ctx("alice", Some("1")), &h, false), Ok("fn main() {}".to_string()));
    assert_eq!(PlayError::NoCount.message(), "No count specified");
    assert_eq!(PlayError::NoCode.message(), "No code to run!");
    assert_eq!(PlayError::MainInDbg.message(), "fn main is not allowed in dbg");
    assert_eq!(
        PlayError::BadCount(NumberError::InvalidDigit).message(),
        "invalid digit found in string"
    );
}

#[test]
fn output_is_shown_with_carriage_returns() {
    let plain = PlayResult { success: true, stdout: "hi\nthere\n".to_string(), stderr: String::new() };
    assert_eq!(play_output(plain), "hi\r\nthere\r\n");
    let ran = PlayResult { success: true, stdout: "42\n".to_string(), stderr: RAN.to_string() };
    assert_eq!(play_output(ran), "thread 'main' panicked\r\n\r\n42\r\n");
    let failed = PlayResult { success: false, stdout: String::new(), stderr: FAILED.to_string() };
    assert_eq!(play_output(failed), "error[E0425]: cannot find value `x`\r\n");
    let refused = PlayResult::from_error("playground is down".to_string());
    assert!(!refused.success);
    assert_eq!(refused.stdout, "");
    assert_eq!(play_output(refused), "playground is down");
}

#[test]
fn more_than_ten_lines_is_too_large() {
    assert!(!too_large(""));
    assert!(!too_large(&"a\r\n".repeat(10)));
    assert!(too_large(&"a\r\n".repeat(11)));
    // empty lines take no line of the answer
    assert!(!too_large(&"a\r\n\r\n".repeat(10)));
    // a long line is cut into pieces of 400 bytes
    assert!(!too_large(&"a".repeat(4000)));
    assert!(too_large(&"a".repeat(4001)));
    assert!(too_large(&format!("{}\r\n{}", "a".repeat(3601), "b\r\nc")));
    assert!(!too_large(&format!("{}\r\n{}", "a".repeat(3600), "b")));
}

#[test]
fn answers_are_put_together() {
    assert_eq!(
        gist_link("abc123"),
        "https://play.rust-lang.org/?version=stable&mode=debug&edition=2021&gist=abc123"
    );
    assert_eq!(large_output("L"), "Output too large.\r\nPlayground link: L");
    assert_eq!(play_reply("alice", "42\r\n"), "alice:\r\n42\r\n");
}
