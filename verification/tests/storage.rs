use uberbot::database::{
    add_quote_statement, create_statement, get_quote_statement, start_search_statement,
    yield_quotes_oid, DbExecutor, Quote, Row, Statement, Value,
};

fn quote(author: &str, text: &str) -> Quote {
    Quote { author: author.to_string(), quote: text.to_string() }
}

fn row(key: i64, author: &str, text: &str) -> Row {
    Row { key, quote: quote(author, text) }
}

#[test]
fn author_is_stored_in_lower_case() {
    let s = add_quote_statement(quote("AliCE_Ä", "Hello World"));
    assert_eq!(
        s,
        Statement {
            sql: "insert into quotes(quote,username) values(?,?)".to_string(),
            params: vec![Value::Text("Hello World".to_string()), Value::Text("alice_Ä".to_string())],
        }
    );
}

#[test]
fn random_quote_with_and_without_author() {
    let s = get_quote_statement(Some("BOB".to_string()));
    assert_eq!(
        s.sql,
        "select quote,username from quotes where username match ? order by random() limit 1"
    );
    assert_eq!(s.params, vec![Value::Text("bob".to_string())]);
    let s = get_quote_statement(None);
    assert_eq!(s.sql, "select quote,username from quotes order by random() limit 1");
    assert_eq!(s.params, vec![]);
}

#[test]
fn table_is_created_where_missing() {
    let s = create_statement();
    assert_eq!(s.sql, "create virtual table if not exists quotes using fts5(username, quote)");
    assert!(s.params.is_empty());
}

#[test]
fn rows_yield_quotes_and_last_key() {
    let (quotes, last) = yield_quotes_oid(vec![row(3, "a", "x"), row(7, "b", "y")]);
    assert_eq!(quotes, vec![quote("a", "x"), quote("b", "y")]);
    assert_eq!(last, 7);
    let (quotes, last) = yield_quotes_oid(vec![]);
    assert!(quotes.is_empty());
    assert_eq!(last, -1);
}

#[test]
fn next_without_search_is_none() {
    let mut exec = DbExecutor::new();
    assert_eq!(exec.next_search_statement("u", 2), None);
    let answer: Result<Option<Vec<Quote>>, String> = exec.next_search("u", 2, Ok(vec![row(1, "a", "x")]));
    assert_eq!(answer, Ok(None));
    assert_eq!(exec.next_search_statement("u", 2), None);
}

#[test]
fn search_goes_on_after_the_last_row() {
    let mut exec = DbExecutor::new();
    let s = start_search_statement("cat", 2);
    assert_eq!(
        s.sql,
        "select oid,quote,username from quotes where quote match ? order by oid asc limit ?"
    );
    assert_eq!(s.params, vec![Value::Text("cat".to_string()), Value::Limit(2)]);
    let first: Result<Vec<Quote>, String> = exec.start_search(
        "u".to_string(),
        "cat".to_string(),
        2,
        Ok(vec![row(2, "a", "cat one"), row(5, "b", "cat two")]),
    );
    assert_eq!(first, Ok(vec![quote("a", "cat one"), quote("b", "cat two")]));

    let s = exec.next_search_statement("u", 2).expect("a search is in progress");
    assert_eq!(
        s.sql,
        "select oid,quote,username from quotes where oid > ? and quote match ? order by oid asc limit ?"
    );
    assert_eq!(s.params, vec![Value::Key(5), Value::Text("cat".to_string()), Value::Limit(2)]);

    let second: Result<Option<Vec<Quote>>, String> =
        exec.next_search("u", 2, Ok(vec![row(9, "c", "cat three")]));
    assert_eq!(second, Ok(Some(vec![quote("c", "cat three")])));
    let s = exec.next_search_statement("u", 2).unwrap();
    assert_eq!(s.params[0], Value::Key(9));
}

#[test]
fn empty_continuation_leaves_the_cursor() {
    let mut exec = DbExecutor::new();
    let _: Result<Vec<Quote>, String> =
        exec.start_search("u".to_string(), "cat".to_string(), 3, Ok(vec![row(4, "a", "cat")]));
    let more: Result<Option<Vec<Quote>>, String> = exec.next_search("u", 3, Ok(vec![]));
    assert_eq!(more, Ok(Some(vec![])));
    assert_eq!(exec.next_search_statement("u", 1).unwrap().params[0], Value::Key(4));
}

#[test]
fn search_without_rows_starts_before_every_key() {
    let mut exec = DbExecutor::new();
    let none: Result<Vec<Quote>, String> =
        exec.start_search("u".to_string(), "dog".to_string(), 3, Ok(vec![]));
    assert_eq!(none, Ok(vec![]));
    assert_eq!(exec.next_search_statement("u", 1).unwrap().params[0], Value::Key(-1));
}

#[test]
fn backend_error_is_handed_on_and_changes_nothing() {
    let mut exec = DbExecutor::new();
    let failed: Result<Vec<Quote>, String> =
        exec.start_search("u".to_string(), "cat".to_string(), 3, Err("disk".to_string()));
    assert_eq!(failed, Err("disk".to_string()));
    assert_eq!(exec.next_search_statement("u", 1), None);

    let _: Result<Vec<Quote>, String> =
        exec.start_search("u".to_string(), "cat".to_string(), 3, Ok(vec![row(4, "a", "cat")]));
    let failed: Result<Option<Vec<Quote>>, String> = exec.next_search("u", 3, Err("locked".to_string()));
    assert_eq!(failed, Err("locked".to_string()));
    assert_eq!(exec.next_search_statement("u", 1).unwrap().params[0], Value::Key(4));
}

#[test]
fn new_search_overwrites_the_old_one() {
    let mut exec = DbExecutor::new();
    let _: Result<Vec<Quote>, String> =
        exec.start_search("u".to_string(), "cat".to_string(), 3, Ok(vec![row(4, "a", "cat")]));
    let _: Result<Vec<Quote>, String> =
        exec.start_search("u".to_string(), "dog".to_string(), 3, Ok(vec![row(2, "a", "dog")]));
    assert_eq!(
        exec.next_search_statement("u", 3).unwrap().params,
        vec![Value::Key(2), Value::Text("dog".to_string()), Value::Limit(3)]
    );
}

#[test]
fn pages_never_overlap_whatever_the_backend_hands_in() {
    let mut exec = DbExecutor::new();
    // more rows than asked for, and one out of order
    let first: Result<Vec<Quote>, String> = exec.start_search(
        "u".to_string(),
        "cat".to_string(),
        2,
        Ok(vec![row(3, "a", "one"), row(1, "b", "early"), row(7, "c", "two"), row(9, "d", "three")]),
    );
    assert_eq!(first, Ok(vec![quote("a", "one"), quote("c", "two")]));
    assert_eq!(exec.next_search_statement("u", 2).unwrap().params[0], Value::Key(7));
    // rows at or before the recorded key are not handed out again
    let more: Result<Option<Vec<Quote>>, String> = exec.next_search(
        "u",
        2,
        Ok(vec![row(3, "a", "one"), row(7, "c", "two"), row(9, "d", "three"), row(9, "d", "again")]),
    );
    assert_eq!(more, Ok(Some(vec![quote("d", "three")])));
    assert_eq!(exec.next_search_statement("u", 2).unwrap().params[0], Value::Key(9));
    // a page of stale rows is empty and leaves the search where it was
    let stale: Result<Option<Vec<Quote>>, String> =
        exec.next_search("u", 2, Ok(vec![row(2, "x", "old"), row(9, "d", "three")]));
    assert_eq!(stale, Ok(Some(vec![])));
    assert_eq!(exec.next_search_statement("u", 2).unwrap().params[0], Value::Key(9));
}

#[test]
fn a_page_holds_no_more_than_the_limit() {
    let mut exec = DbExecutor::new();
    let none: Result<Vec<Quote>, String> =
        exec.start_search("u".to_string(), "cat".to_string(), 0, Ok(vec![row(1, "a", "x")]));
    assert_eq!(none, Ok(vec![]));
    assert_eq!(exec.next_search_statement("u", 1).unwrap().params[0], Value::Key(-1));
    let one: Result<Option<Vec<Quote>>, String> =
        exec.next_search("u", 1, Ok(vec![row(1, "a", "x"), row(2, "b", "y")]));
    assert_eq!(one, Ok(Some(vec![quote("a", "x")])));
    assert_eq!(exec.next_search_statement("u", 1).unwrap().params[0], Value::Key(1));
}
