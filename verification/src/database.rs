//! The bookkeeping of the quote store's single writer: the statements it
//! runs for each request, and what it answers and remembers once the backend
//! has run them. Every requester has at most one search in progress.

use vstd::prelude::*;
use vstd::string::*;
use crate::string_map::StringMap;
use crate::text::{ascii_lowercase, to_ascii_lowercase};

verus! {

/// A quote and who said it.
#[derive(Debug, Clone, PartialEq, Eq)]
pub struct Quote {
    pub author: String,
    pub quote: String,
}

/// A quote as contracts speak of it.
pub ghost struct QuoteSpec {
    pub author: Seq<char>,
    pub quote: Seq<char>,
}

impl Quote {
    /// The quote's author and text.
    pub open spec fn view(&self) -> QuoteSpec {
        QuoteSpec { author: self.author@, quote: self.quote@ }
    }
}

/// A value bound to a placeholder of a statement.
#[derive(Debug, Clone, PartialEq, Eq)]
pub enum Value {
    Text(String),
    Key(i64),
    Limit(usize),
}

/// A bound value as contracts speak of it.
pub ghost enum ValueSpec {
    Text(Seq<char>),
    Key(int),
    Limit(nat),
}

impl Value {
    /// What the value holds.
    pub open spec fn view(&self) -> ValueSpec {
        match self {
            Value::Text(s) => ValueSpec::Text(s@),
            Value::Key(k) => ValueSpec::Key(*k as int),
            Value::Limit(n) => ValueSpec::Limit(*n as nat),
        }
    }
}

/// A statement for the backend: its SQL text and the values of its placeholders, in order.
#[derive(Debug, Clone, PartialEq, Eq)]
pub struct Statement {
    pub sql: String,
    pub params: Vec<Value>,
}

impl Statement {
    /// The values of the placeholders.
    pub open spec fn bound(&self) -> Seq<ValueSpec> {
        Seq::new(self.params@.len(), |i: int| self.params@[i]@)
    }
}

/// A row of a search: the key that orders the rows, and the quote.
pub struct Row {
    pub key: i64,
    pub quote: Quote,
}

/// The keys of some rows, in order.
pub open spec fn keys_of(rows: Seq<Row>) -> Seq<int> {
    Seq::new(rows.len(), |i: int| rows[i].key as int)
}

/// The quotes of some rows, in order.
pub open spec fn quotes_of(rows: Seq<Row>) -> Seq<QuoteSpec> {
    Seq::new(rows.len(), |i: int| rows[i].quote@)
}

/// The quotes held by a sequence of quotes.
pub open spec fn quote_views(quotes: Seq<Quote>) -> Seq<QuoteSpec> {
    Seq::new(quotes.len(), |i: int| quotes[i]@)
}

/// The key of the last row, or `otherwise` when there is no row.
pub open spec fn last_key(keys: Seq<int>, otherwise: int) -> int {
    if keys.len() == 0 {
        otherwise
    } else {
        keys.last()
    }
}

/// A search in progress: the query, and the key after which it goes on.
pub ghost struct CursorSpec {
    pub query: Seq<char>,
    pub key: int,
}

/// The search cursors of all requesters.
pub struct DbExecutor {
    searches: StringMap<(String, i64)>,
}

/// The statement that creates the table of quotes where it does not exist yet.
pub fn create_statement() -> (s: Statement)
    ensures
        s.sql@ == "create virtual table if not exists quotes using fts5(username, quote)"@,
        s.bound() == Seq::<ValueSpec>::empty(),
{
    let s = Statement {
        sql: "create virtual table if not exists quotes using fts5(username, quote)".to_owned(),
        params: Vec::new(),
    };
    assert(s.bound() =~= Seq::<ValueSpec>::empty());
    s
}

/// The statement that stores `quote`. The author goes in with the ASCII
/// capital letters of the name in lower case.
pub fn add_quote_statement(quote: Quote) -> (s: Statement)
    ensures
        s.sql@ == "insert into quotes(quote,username) values(?,?)"@,
        s.bound() == seq![
            ValueSpec::Text(quote.quote@),
            ValueSpec::Text(ascii_lowercase(quote.author@)),
        ],
{
    let author = to_ascii_lowercase(quote.author.as_str());
    let mut params: Vec<Value> = Vec::new();
    params.push(Value::Text(quote.quote));
    params.push(Value::Text(author));
    let s = Statement {
        sql: "insert into quotes(quote,username) values(?,?)".to_owned(),
        params,
    };
    assert(s.bound() =~= seq![
        ValueSpec::Text(quote.quote@),
        ValueSpec::Text(ascii_lowercase(quote.author@)),
    ]);
    s
}

/// The statement that picks one quote at random: among those of `author`,
/// whose name is matched in lower case, or among all quotes.
pub fn get_quote_statement(author: Option<String>) -> (s: Statement)
    ensures
        match author {
            Some(a) => s.sql@
                == "select quote,username from quotes where username match ? order by random() limit 1"@
                && s.bound() == seq![ValueSpec::Text(ascii_lowercase(a@))],
            None => s.sql@ == "select quote,username from quotes order by random() limit 1"@
                && s.bound() == Seq::<ValueSpec>::empty(),
        },
{
    match author {
        Some(a) => {
            let mut params: Vec<Value> = Vec::new();
            params.push(Value::Text(to_ascii_lowercase(a.as_str())));
            let s = Statement {
                sql: "select quote,username from quotes where username match ? order by random() limit 1".to_owned(),
                params,
            };
            assert(s.bound() =~= seq![ValueSpec::Text(ascii_lowercase(a@))]);
            s
        },
        None => {
            let s = Statement {
                sql: "select quote,username from quotes order by random() limit 1".to_owned(),
                params: Vec::new(),
            };
            assert(s.bound() =~= Seq::<ValueSpec>::empty());
            s
        },
    }
}

/// The statement that finds the first `limit` quotes matching `query`, in the order of their keys.
pub fn start_search_statement(query: &str, limit: usize) -> (s: Statement)
    ensures
        s.sql@
            == "select oid,quote,username from quotes where quote match ? order by oid asc limit ?"@,
        s.bound() == seq![ValueSpec::Text(query@), ValueSpec::Limit(limit as nat)],
{
    let mut params: Vec<Value> = Vec::new();
    params.push(Value::Text(query.to_owned()));
    params.push(Value::Limit(limit));
    let s = Statement {
        sql: "select oid,quote,username from quotes where quote match ? order by oid asc limit ?".to_owned(),
        params,
    };
    assert(s.bound() =~= seq![ValueSpec::Text(query@), ValueSpec::Limit(limit as nat)]);
    s
}

/// The quotes of `rows` in their order, and the key of the last row, -1 when there is none.
pub fn yield_quotes_oid(rows: Vec<Row>) -> (r: (Vec<Quote>, i64))
    ensures
        quote_views(r.0@) == quotes_of(rows@),
        r.1 == last_key(keys_of(rows@), -1),
{
    let ghost given = rows@;
    let mut lastoid: i64 = -1;
    let mut quotes: Vec<Quote> = Vec::new();
    for row in it: rows
        invariant
            it.seq() == given,
            quote_views(quotes@) == quotes_of(given.take(it.index() as int)),
            lastoid == last_key(keys_of(given.take(it.index() as int)), -1),
    {
        let ghost had = quotes@;
        let ghost i = it.index() as int;
        lastoid = row.key;
        quotes.push(row.quote);
        proof {
            assert(quote_views(quotes@) =~= quote_views(had).push(row.quote@));
            assert(given.take(i + 1) =~= given.take(i).push(given[i]));
            assert(quote_views(quotes@) =~= quotes_of(given.take(i + 1)));
            assert(keys_of(given.take(i + 1)).last() == given[i].key);
        }
    }
    assert(given.take(given.len() as int) =~= given);
    (quotes, lastoid)
}

/// The key that an optional key stands for.
pub open spec fn key_of(key: Option<i64>) -> Option<int> {
    match key {
        Some(k) => Some(k as int),
        None => None,
    }
}

/// The page that `rows` make after the key `after`, of at most `limit` rows:
/// going through the rows in their order, a row is taken if its key is above
/// `after` and above the key of the row taken before it, until `limit` rows
/// are taken. Rows that a backend answers to a search statement are all taken.
pub open spec fn page_of(rows: Seq<Row>, after: Option<int>, limit: nat) -> Seq<Row>
    decreases rows.len(),
{
    if rows.len() == 0 || limit == 0 {
        Seq::empty()
    } else if after matches Some(k) && rows[0].key <= k {
        page_of(rows.drop_first(), after, limit)
    } else {
        seq![rows[0]] + page_of(rows.drop_first(), Some(rows[0].key as int), (limit - 1) as nat)
    }
}

/// Whether `keys` are above `after` and strictly rising.
pub open spec fn rising_after(keys: Seq<int>, after: Option<int>) -> bool {
    &&& forall|i: int| 0 <= i < keys.len() && after is Some ==> after->0 < #[trigger] keys[i]
    &&& forall|i: int, j: int| 0 <= i < j < keys.len() ==> keys[i] < keys[j]
}

/// A page holds at most `limit` rows, and their keys are above `after` and strictly rising.
pub proof fn lemma_page_is_rising(rows: Seq<Row>, after: Option<int>, limit: nat)
    ensures
        page_of(rows, after, limit).len() <= limit,
        rising_after(keys_of(page_of(rows, after, limit)), after),
    decreases rows.len(),
{
    if rows.len() == 0 || limit == 0 {
    } else if after matches Some(k) && rows[0].key <= k {
        lemma_page_is_rising(rows.drop_first(), after, limit);
    } else {
        let rest = page_of(rows.drop_first(), Some(rows[0].key as int), (limit - 1) as nat);
        lemma_page_is_rising(rows.drop_first(), Some(rows[0].key as int), (limit - 1) as nat);
        let page = page_of(rows, after, limit);
        assert(page =~= seq![rows[0]] + rest);
        let keys = keys_of(page);
        assert forall|i: int| 0 <= i < keys.len() && after is Some implies after->0
            < #[trigger] keys[i] by {
            if i > 0 {
                assert(keys[i] == keys_of(rest)[i - 1]);
            }
        }
        assert forall|i: int, j: int| 0 <= i < j < keys.len() implies keys[i] < keys[j] by {
            assert(keys[j] == keys_of(rest)[j - 1]);
            if i > 0 {
                assert(keys[i] == keys_of(rest)[i - 1]);
            }
        }
    }
}

/// Rows whose keys are above `after` and strictly rising, and that are no
/// more than `limit`, are a page as they stand.
pub proof fn lemma_rising_rows_are_a_page(rows: Seq<Row>, after: Option<int>, limit: nat)
    requires
        rows.len() <= limit,
        rising_after(keys_of(rows), after),
    ensures
        page_of(rows, after, limit) == rows,
    decreases rows.len(),
{
    if rows.len() > 0 {
        let keys = keys_of(rows);
        assert(keys[0] == rows[0].key);
        let rest = rows.drop_first();
        assert forall|i: int| 0 <= i < rest.len() implies rows[0].key < #[trigger] keys_of(
            rest,
        )[i] by {
            assert(keys_of(rest)[i] == keys[i + 1]);
        }
        assert forall|i: int, j: int| 0 <= i < j < rest.len() implies keys_of(rest)[i] < keys_of(
            rest,
        )[j] by {
            assert(keys_of(rest)[i] == keys[i + 1]);
            assert(keys_of(rest)[j] == keys[j + 1]);
        }
        lemma_rising_rows_are_a_page(rest, Some(rows[0].key as int), (limit - 1) as nat);
        assert(seq![rows[0]] + rest =~= rows);
    }
}

/// Two pages of one search do not overlap: whatever rows the backend hands
/// in, every row of the page that starts a search comes before every row of
/// the page that continues it after the key that the first page left behind.
pub proof fn lemma_pages_do_not_overlap(
    first_rows: Seq<Row>,
    first_limit: nat,
    next_rows: Seq<Row>,
    next_limit: nat,
)
    ensures
        ({
            let first = page_of(first_rows, None, first_limit);
            let next = page_of(
                next_rows,
                Some(last_key(keys_of(first), -1)),
                next_limit,
            );
            forall|i: int, j: int|
                0 <= i < first.len() && 0 <= j < next.len() ==> (#[trigger] first[i]).key < (
                #[trigger] next[j]).key
        }),
{
    let first = page_of(first_rows, None, first_limit);
    let after = Some(last_key(keys_of(first), -1));
    let next = page_of(next_rows, after, next_limit);
    lemma_page_is_rising(first_rows, None, first_limit);
    lemma_page_is_rising(next_rows, after, next_limit);
    assert forall|i: int, j: int| 0 <= i < first.len() && 0 <= j < next.len() implies (
    #[trigger] first[i]).key < (#[trigger] next[j]).key by {
        let fk = keys_of(first);
        let nk = keys_of(next);
        assert(fk[i] == first[i].key);
        assert(nk[j] == next[j].key);
        assert(fk[i] <= fk.last());
        assert(fk.last() < nk[j]);
    }
}

/// The page that `rows` make after `after`, of at most `limit` rows.
fn keep_page(rows: Vec<Row>, after: Option<i64>, limit: usize) -> (kept: Vec<Row>)
    ensures
        kept@ == page_of(rows@, key_of(after), limit as nat),
{
    let ghost given = rows@;
    let mut kept: Vec<Row> = Vec::new();
    let mut last = after;
    proof {
        assert(given.skip(0) =~= given);
    }
    for row in it: rows
        invariant
            it.seq() == given,
            kept@.len() <= limit,
            page_of(given, key_of(after), limit as nat) == kept@ + page_of(
                given.skip(it.index() as int),
                key_of(last),
                (limit - kept@.len()) as nat,
            ),
    {
        let ghost i = it.index() as int;
        let ghost rest = given.skip(i);
        let ghost had = kept@;
        proof {
            assert(rest[0] == given[i]);
            assert(rest.drop_first() =~= given.skip(i + 1));
        }
        let above = match last {
            Some(k) => row.key > k,
            None => true,
        };
        if kept.len() < limit && above {
            last = Some(row.key);
            kept.push(row);
            proof {
                assert(kept@ + page_of(
                    given.skip(i + 1),
                    key_of(last),
                    (limit - kept@.len()) as nat,
                ) =~= had + (seq![rest[0]] + page_of(
                    rest.drop_first(),
                    Some(rest[0].key as int),
                    ((limit - had.len()) - 1) as nat,
                )));
            }
        }
    }
    proof {
        assert(given.skip(given.len() as int).len() == 0);
        assert(kept@ + Seq::<Row>::empty() =~= kept@);
    }
    kept
}

impl DbExecutor {
    /// The invariant of the cursor table.
    pub closed spec fn wf(&self) -> bool {
        self.searches.wf()
    }

    /// The search in progress of each requester that has one.
    pub closed spec fn cursors(&self) -> Map<Seq<char>, CursorSpec> {
        Map::new(
            |u: Seq<char>| self.searches@.dom().contains(u),
            |u: Seq<char>|
                CursorSpec { query: self.searches@[u].0@, key: self.searches@[u].1 as int },
        )
    }

    /// A writer that knows of no search.
    pub fn new() -> (e: DbExecutor)
        ensures
            e.wf(),
            e.cursors() == Map::<Seq<char>, CursorSpec>::empty(),
    {
        let e = DbExecutor { searches: StringMap::new() };
        assert(e.cursors() =~= Map::<Seq<char>, CursorSpec>::empty());
        e
    }

    /// Completes the start of a search by `user` for `query`, given what the
    /// backend answered to [`start_search_statement`]. The quotes of the page
    /// that the rows make, of at most `limit` rows, are handed on, and the
    /// search is recorded in place of an earlier search of `user`, with the key
    /// of the last row of the page, or -1 when the page is empty. An error of
    /// the backend is handed on as it is and changes nothing.
    pub fn start_search<E>(
        &mut self,
        user: String,
        query: String,
        limit: usize,
        rows: Result<Vec<Row>, E>,
    ) -> (r: Result<Vec<Quote>, E>)
        requires
            old(self).wf(),
        ensures
            final(self).wf(),
            match rows {
                Ok(found) => {
                    let page = page_of(found@, None, limit as nat);
                    &&& r matches Ok(quotes)
                    &&& quote_views(quotes@) == quotes_of(page)
                    &&& final(self).cursors() == old(self).cursors().insert(
                        user@,
                        CursorSpec { query: query@, key: last_key(keys_of(page), -1) },
                    )
                },
                Err(e) => r == Err::<Vec<Quote>, E>(e) && final(self).cursors() == old(
                    self).cursors(),
            },
    {
        match rows {
            Ok(found) => {
                let ghost before = *self;
                let page = keep_page(found, None, limit);
                let (quotes, oid) = yield_quotes_oid(page);
                self.searches.insert(user, (query, oid));
                assert(self.cursors() =~= before.cursors().insert(
                    user@,
                    CursorSpec { query: query@, key: oid as int },
                ));
                Ok(quotes)
            },
            Err(e) => Err(e),
        }
    }

    /// The statement that continues the search of `user` with at most `limit`
    /// quotes after the recorded key; `None` when `user` has no search in progress.
    pub fn next_search_statement(&self, user: &str, limit: usize) -> (r: Option<Statement>)
        requires
            self.wf(),
        ensures
            match r {
                Some(s) => self.cursors().dom().contains(user@) && s.sql@
                    == "select oid,quote,username from quotes where oid > ? and quote match ? order by oid asc limit ?"@
                    && s.bound() == seq![
                    ValueSpec::Key(self.cursors()[user@].key),
                    ValueSpec::Text(self.cursors()[user@].query),
                    ValueSpec::Limit(limit as nat),
                ],
                None => !self.cursors().dom().contains(user@),
            },
    {
        match self.searches.get(user) {
            Some(cursor) => {
                let mut params: Vec<Value> = Vec::new();
                params.push(Value::Key(cursor.1));
                params.push(Value::Text(cursor.0.clone()));
                params.push(Value::Limit(limit));
                let s = Statement {
                    sql: "select oid,quote,username from quotes where oid > ? and quote match ? order by oid asc limit ?".to_owned(),
                    params,
                };
                assert(s.bound() =~= seq![
                    ValueSpec::Key(self.cursors()[user@].key),
                    ValueSpec::Text(self.cursors()[user@].query),
                    ValueSpec::Limit(limit as nat),
                ]);
                Some(s)
            },
            None => None,
        }
    }

    /// Completes a step of the search of `user`, given what the backend
    /// answered to [`Self::next_search_statement`]. Without a search in
    /// progress the answer is `Ok(None)`. Otherwise the quotes of the page that
    /// the rows make after the recorded key, of at most `limit` rows, are
    /// handed on, and the search goes on after the last of them; with an empty
    /// page it stays where it was. An error of the backend is handed on as it
    /// is and changes nothing.
    pub fn next_search<E>(&mut self, user: &str, limit: usize, rows: Result<Vec<Row>, E>) -> (r:
        Result<Option<Vec<Quote>>, E>)
        requires
            old(self).wf(),
        ensures
            final(self).wf(),
            !old(self).cursors().dom().contains(user@) ==> (r matches Ok(None))
                && final(self).cursors() == old(self).cursors(),
            old(self).cursors().dom().contains(user@) ==> match rows {
                Ok(found) => {
                    let was = old(self).cursors()[user@];
                    let page = page_of(found@, Some(was.key), limit as nat);
                    &&& r matches Ok(Some(quotes))
                    &&& quote_views(quotes@) == quotes_of(page)
                    &&& final(self).cursors() == old(self).cursors().insert(
                        user@,
                        CursorSpec { query: was.query, key: last_key(keys_of(page), was.key) },
                    )
                },
                Err(e) => r == Err::<Option<Vec<Quote>>, E>(e) && final(self).cursors() == old(
                    self).cursors(),
            },
    {
        let after = match self.searches.get(user) {
            Some(cursor) => cursor.1,
            None => {
                return Ok(None);
            },
        };
        match rows {
            Ok(found) => {
                let ghost before = *self;
                let page = keep_page(found, Some(after), limit);
                let any = page.len() > 0;
                let (quotes, new_oid) = yield_quotes_oid(page);
                if any {
                    match self.searches.take(user) {
                        Some(entry) => {
                            let (key, cursor) = entry;
                            self.searches.insert(key, (cursor.0, new_oid));
                        },
                        None => {},
                    }
                }
                assert(self.cursors() =~= before.cursors().insert(
                    user@,
                    CursorSpec {
                        query: before.cursors()[user@].query,
                        key: last_key(
                            keys_of(page_of(found@, Some(after as int), limit as nat)),
                            before.cursors()[user@].key,
                        ),
                    },
                ));
                Ok(Some(quotes))
            },
            Err(e) => Err(e),
        }
    }
}

} // verus!
