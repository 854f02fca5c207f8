//! The settings of the bot, and what follows from them where a setting is left out.

use vstd::prelude::*;
use vstd::string::*;
use crate::history::texts_of;
use crate::string_map::StringMap;

verus! {

/// The credentials for the Spotify API.
pub struct SpotifyConfig {
    pub client_id: String,
    pub client_secret: String,
}

/// How to reach the IRC server and who to be there.
pub struct IrcConfig {
    pub channels: Vec<String>,
    pub host: String,
    pub tls: bool,
    pub mode: Option<String>,
    pub nickname: Option<String>,
    pub alt_nicks: Option<Vec<String>>,
    pub port: u16,
    pub username: String,
    pub sasl_pass: Option<String>,
}

/// The settings of the router and of the quote store.
pub struct BotConfig {
    pub db_path: Option<String>,
    pub history_depth: usize,
    pub search_limit: Option<usize>,
    pub prefixes: Vec<String>,
    pub ignored_triggers: Option<StringMap<Vec<String>>>,
    pub user_agent: Option<String>,
}

/// `input` in base64 with the standard alphabet and padding, as `base64::encode` writes it.
pub uninterp spec fn base64_text(input: Seq<char>) -> Seq<char>;

/// Calls `base64::encode` on the bytes of `input`. The contract only names
/// the outcome: it depends on the input alone.
#[verifier::external_body]
fn base64_encode(input: &str) -> (r: String)
    ensures
        r@ == base64_text(input@),
{
    base64::encode(input)
}

impl IrcConfig {
    /// The nickname to use: the configured one, else the user name.
    pub open spec fn spec_nick(&self) -> Seq<char> {
        match self.nickname {
            Some(nick) => nick@,
            None => self.username@,
        }
    }

    /// The nickname to use: the configured one, else the user name.
    pub fn nick(&self) -> (nick: String)
        ensures
            nick@ == self.spec_nick(),
    {
        match &self.nickname {
            Some(nick) => nick.clone(),
            None => self.username.clone(),
        }
    }

    /// The nicknames to fall back on: the configured ones, else the nickname
    /// followed by one and by two underscores.
    pub fn alternative_nicks(&self) -> (nicks: Vec<String>)
        ensures
            texts_of(nicks@) == match self.alt_nicks {
                Some(configured) => texts_of(configured@),
                None => seq![self.spec_nick() + "_"@, self.spec_nick() + "__"@],
            },
    {
        match &self.alt_nicks {
            Some(configured) => {
                let mut nicks: Vec<String> = Vec::new();
                let mut i: usize = 0;
                while i < configured.len()
                    invariant
                        i <= configured.len(),
                        texts_of(nicks@) == texts_of(configured@).take(i as int),
                    decreases configured.len() - i,
                {
                    let ghost had = nicks@;
                    nicks.push(configured[i].clone());
                    i += 1;
                    assert(texts_of(nicks@) =~= texts_of(had).push(configured@[i - 1]@));
                    assert(texts_of(nicks@) =~= texts_of(configured@).take(i as int));
                }
                assert(texts_of(configured@).take(i as int) =~= texts_of(configured@));
                nicks
            },
            None => {
                let mut one = self.nick();
                one.append("_");
                let mut two = self.nick();
                two.append("__");
                let mut nicks: Vec<String> = Vec::new();
                nicks.push(one);
                nicks.push(two);
                assert(texts_of(nicks@) =~= seq![
                    self.spec_nick() + "_"@,
                    self.spec_nick() + "__"@,
                ]);
                nicks
            },
        }
    }

    /// The response of the SASL `PLAIN` mechanism where a password is
    /// configured: the user name twice and the password, each two separated by
    /// a NUL, in base64.
    pub fn sasl_plain(&self) -> (r: Option<String>)
        ensures
            match self.sasl_pass {
                Some(pass) => r matches Some(text) && text@ == base64_text(
                    self.username@ + "\0"@ + self.username@ + "\0"@ + pass@,
                ),
                None => r is None,
            },
    {
        match &self.sasl_pass {
            Some(pass) => {
                let mut plain = self.username.clone();
                plain.append("\0");
                plain.append(self.username.as_str());
                plain.append("\0");
                plain.append(pass.as_str());
                Some(base64_encode(plain.as_str()))
            },
            None => None,
        }
    }
}

impl BotConfig {
    /// Whether a prefix is configured; without one no command can be given.
    pub fn has_prefix(&self) -> (r: bool)
        ensures
            r == (self.prefixes@.len() > 0),
    {
        self.prefixes.len() > 0
    }

    /// The path of the database: the configured one, else `uberbot.db3`.
    pub fn database_path(&self) -> (path: String)
        ensures
            path@ == match self.db_path {
                Some(p) => p@,
                None => "uberbot.db3"@,
            },
    {
        match &self.db_path {
            Some(p) => p.clone(),
            None => "uberbot.db3".to_owned(),
        }
    }

    /// The number of quotes that a search shows at a time: the configured one, else 3.
    pub fn page_size(&self) -> (n: usize)
        ensures
            n == match self.search_limit {
                Some(limit) => limit,
                None => 3,
            },
    {
        match self.search_limit {
            Some(limit) => limit,
            None => 3,
        }
    }
}

} // verus!
