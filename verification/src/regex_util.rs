//! Pattern matching on message texts, and the owned record of one match:
//! the text of every group under the group's own index, and the index of
//! every named group. A pattern is handed to the engine as text, so that what
//! it matches is a function of the pattern's text and the message alone.

use vstd::prelude::*;
use vstd::string::*;
use crate::string_map::StringMap;

verus! {

/// The error type of the pattern engine.
#[verifier::external_type_specification]
#[verifier::external_body]
pub struct ExPatternFault(fancy_regex::Error);

/// What matching a pattern against a text comes to.
pub enum Matching {
    /// The pattern does not compile, or the engine gave up on this text.
    Failed,
    /// The pattern compiles and is not found in the text.
    Absent,
    /// The first match: for each group of the pattern, 0 being the whole
    /// match, its text, or `None` for a group that took no part.
    Found(Seq<Option<Seq<char>>>),
}

/// Whether `fancy_regex` compiles the pattern `pattern` with its default options.
pub uninterp spec fn pattern_compiles(pattern: Seq<char>) -> bool;

/// The index of every named group of `pattern`, by name, as `fancy_regex`
/// parses the pattern; `None` when it does not parse.
pub uninterp spec fn pattern_named_groups(pattern: Seq<char>) -> Option<Map<Seq<char>, nat>>;

/// What `fancy_regex` finds when the pattern `pattern`, compiled with the
/// engine's default options, is searched for in `text`.
pub uninterp spec fn pattern_matching(pattern: Seq<char>, text: Seq<char>) -> Matching;

/// The texts held by a sequence of optional strings.
pub open spec fn optional_texts(v: Seq<Option<String>>) -> Seq<Option<Seq<char>>> {
    Seq::new(
        v.len(),
        |i: int|
            match v[i] {
                Some(s) => Some(s@),
                None => None,
            },
    )
}

/// The names and indices held by a sequence of pairs.
pub open spec fn pairs_of(v: Seq<(String, usize)>) -> Seq<(Seq<char>, nat)> {
    Seq::new(v.len(), |i: int| (v[i].0@, v[i].1 as nat))
}

/// Whether `pairs` lists the entries of `m`, all of them and nothing else.
pub open spec fn lists(pairs: Seq<(Seq<char>, nat)>, m: Map<Seq<char>, nat>) -> bool {
    &&& forall|i: int|
        0 <= i < pairs.len() ==> m.dom().contains((#[trigger] pairs[i]).0) && m[pairs[i].0]
            == pairs[i].1
    &&& forall|k: Seq<char>|
        m.dom().contains(k) ==> exists|i: int| 0 <= i < pairs.len() && (#[trigger] pairs[i]).0 == k
}

/// The `Matching` that a result of [`match_groups`] stands for.
pub open spec fn matching_of(r: Result<Option<Vec<Option<String>>>, fancy_regex::Error>) -> Matching {
    match r {
        Err(_) => Matching::Failed,
        Ok(None) => Matching::Absent,
        Ok(Some(groups)) => Matching::Found(optional_texts(groups@)),
    }
}

/// Compiles `pattern` with `fancy_regex::Regex::new` and tells whether that
/// went well. The contract names the answer, which depends on the pattern
/// alone, and adds that a pattern which compiles also parses: compiling
/// begins with parsing.
#[verifier::external_body]
pub(crate) fn compile_check(pattern: &str) -> (r: Result<(), fancy_regex::Error>)
    ensures
        (r is Ok) == pattern_compiles(pattern@),
        r is Ok ==> pattern_named_groups(pattern@) is Some,
{
    fancy_regex::Regex::new(pattern).map(|_| ())
}

/// Parses `pattern` with `fancy_regex::Expr::parse_tree` and lists the
/// entries of the tree's table of named groups, in no particular order. The
/// contract names the table, which depends on the pattern alone.
#[verifier::external_body]
pub(crate) fn named_groups(pattern: &str) -> (r: Result<Vec<(String, usize)>, fancy_regex::Error>)
    ensures
        match r {
            Ok(pairs) => pattern_named_groups(pattern@) matches Some(m) && lists(
                pairs_of(pairs@),
                m,
            ),
            Err(_) => pattern_named_groups(pattern@) is None,
        },
{
    Ok(fancy_regex::Expr::parse_tree(pattern)?.named_groups.into_iter().collect())
}

/// Compiles `pattern` with `fancy_regex::Regex::new` and searches `text` with
/// `Regex::captures`. An error of either call comes back as it is; a match
/// comes back as the text of each group, in the order of `Captures::iter`.
/// The contract names the outcome, which depends on the pattern and the text
/// alone, and adds that a match has a group 0, the whole match, which took part.
#[verifier::external_body]
pub(crate) fn match_groups(pattern: &str, text: &str) -> (r: Result<
    Option<Vec<Option<String>>>,
    fancy_regex::Error,
>)
    ensures
        matching_of(r) == pattern_matching(pattern@, text@),
        r matches Ok(Some(groups)) ==> groups@.len() > 0 && groups@[0] is Some,
{
    let found = fancy_regex::Regex::new(pattern)?.captures(text)?;
    Ok(found.map(|c| c.iter().map(|g| g.map(|m| m.as_str().to_owned())).collect()))
}

/// The text of the group at index `i`, where the match has such a group and it took part.
pub open spec fn group_at(groups: Seq<Option<Seq<char>>>, i: int) -> Option<Seq<char>> {
    if 0 <= i < groups.len() {
        groups[i]
    } else {
        None
    }
}

/// The index of each name in `pairs`. Where a name stands in two pairs, the later one counts.
pub open spec fn name_indices(pairs: Seq<(Seq<char>, nat)>) -> Map<Seq<char>, nat>
    decreases pairs.len(),
{
    if pairs.len() == 0 {
        Map::empty()
    } else {
        name_indices(pairs.drop_last()).insert(pairs.last().0, pairs.last().1)
    }
}

/// The text of the group called `name`, where there is such a group and it took part.
pub open spec fn named_group(
    names: Map<Seq<char>, nat>,
    groups: Seq<Option<Seq<char>>>,
    name: Seq<char>,
) -> Option<Seq<char>> {
    if names.dom().contains(name) {
        group_at(groups, names[name] as int)
    } else {
        None
    }
}

proof fn lemma_name_indices_prefix(pairs: Seq<(Seq<char>, nat)>, m: Map<Seq<char>, nat>, n: int)
    requires
        0 <= n <= pairs.len(),
        forall|i: int|
            0 <= i < pairs.len() ==> m.dom().contains((#[trigger] pairs[i]).0) && m[pairs[i].0]
                == pairs[i].1,
    ensures
        forall|k: Seq<char>| #[trigger]
            name_indices(pairs.take(n)).dom().contains(k) ==> m.dom().contains(k) && name_indices(
                pairs.take(n),
            )[k] == m[k],
        forall|i: int|
            0 <= i < n ==> name_indices(pairs.take(n)).dom().contains((#[trigger] pairs[i]).0),
    decreases n,
{
    if n > 0 {
        lemma_name_indices_prefix(pairs, m, n - 1);
        assert(pairs.take(n).drop_last() =~= pairs.take(n - 1));
        assert(pairs.take(n).last() == pairs[n - 1]);
        let before = name_indices(pairs.take(n - 1));
        let now = name_indices(pairs.take(n));
        assert(now == before.insert(pairs[n - 1].0, pairs[n - 1].1));
        assert forall|k: Seq<char>| #[trigger] now.dom().contains(k) implies m.dom().contains(k)
            && now[k] == m[k] by {
            if k == pairs[n - 1].0 {
                assert(m.dom().contains(pairs[n - 1].0));
            } else {
                assert(before.dom().contains(k));
            }
        }
        assert forall|i: int| 0 <= i < n implies name_indices(pairs.take(n)).dom().contains(
            (#[trigger] pairs[i]).0,
        ) by {
            if i < n - 1 {
                assert(name_indices(pairs.take(n - 1)).dom().contains(pairs[i].0));
            }
        }
    } else {
        assert(pairs.take(0).len() == 0);
    }
}

/// The pairs that list a table of named groups give every name the index
/// that the table gives it.
pub proof fn lemma_listed_names(pairs: Seq<(Seq<char>, nat)>, m: Map<Seq<char>, nat>)
    requires
        lists(pairs, m),
    ensures
        name_indices(pairs) == m,
{
    lemma_name_indices_prefix(pairs, m, pairs.len() as int);
    assert(pairs.take(pairs.len() as int) =~= pairs);
    assert forall|k: Seq<char>| m.dom().contains(k) implies name_indices(pairs).dom().contains(
        k,
    ) by {
        let i = choose|i: int| 0 <= i < pairs.len() && (#[trigger] pairs[i]).0 == k;
        assert(name_indices(pairs).dom().contains(pairs[i].0));
    }
    assert(name_indices(pairs) =~= m);
}

/// An owned record of one match.
pub struct OwnedCaptures {
    captures: Vec<Option<String>>,
    named_groups: StringMap<usize>,
}

impl OwnedCaptures {
    /// The invariant of the record.
    pub closed spec fn wf(&self) -> bool {
        self.named_groups.wf()
    }

    /// The text of each group under its index, `None` for a group that took
    /// no part; the group 0 is the whole match.
    pub closed spec fn groups(&self) -> Seq<Option<Seq<char>>> {
        optional_texts(self.captures@)
    }

    /// The index of each named group, by name.
    pub closed spec fn names(&self) -> Map<Seq<char>, nat> {
        Map::new(
            |k: Seq<char>| self.named_groups@.dom().contains(k),
            |k: Seq<char>| self.named_groups@[k] as nat,
        )
    }

    /// The text of the group called `name`, where there is such a group and it took part.
    pub open spec fn named(&self, name: Seq<char>) -> Option<Seq<char>> {
        named_group(self.names(), self.groups(), name)
    }

    /// Builds the record of a match from the indices of the pattern's named
    /// groups and the texts of the groups by index.
    pub fn new(named: &Vec<(String, usize)>, groups: Vec<Option<String>>) -> (r: OwnedCaptures)
        ensures
            r.wf(),
            r.groups() == optional_texts(groups@),
            r.names() == name_indices(pairs_of(named@)),
    {
        let ghost pairs = pairs_of(named@);
        let mut table: StringMap<usize> = StringMap::new();
        let mut i: usize = 0;
        while i < named.len()
            invariant
                i <= named.len(),
                pairs == pairs_of(named@),
                table.wf(),
                forall|k: Seq<char>|
                    table@.dom().contains(k) <==> name_indices(pairs.take(i as int)).dom().contains(
                        k,
                    ),
                forall|k: Seq<char>| #[trigger]
                    table@.dom().contains(k) ==> table@[k] as nat == name_indices(
                        pairs.take(i as int),
                    )[k],
            decreases named.len() - i,
        {
            table.insert(named[i].0.clone(), named[i].1);
            i += 1;
            proof {
                assert(pairs.take(i as int).drop_last() =~= pairs.take(i - 1));
                assert(pairs.take(i as int).last() == pairs[i - 1]);
            }
        }
        assert(pairs.take(i as int) =~= pairs);
        let r = OwnedCaptures { captures: groups, named_groups: table };
        assert(r.names() =~= name_indices(pairs));
        r
    }

    /// The text of the group at index `i`, where the pattern has such a group
    /// and it took part in the match; 0 is the whole match.
    pub fn get(&self, i: usize) -> (r: Option<&str>)
        ensures
            (match r {
                Some(s) => Some(s@),
                None => None,
            }) == group_at(self.groups(), i as int),
    {
        if i < self.captures.len() {
            match &self.captures[i] {
                Some(s) => Some(s.as_str()),
                None => None,
            }
        } else {
            None
        }
    }

    /// The text of the group called `name`, if there is one and it took part in the match.
    pub fn name(&self, name: &str) -> (r: Option<&str>)
        requires
            self.wf(),
        ensures
            (match r {
                Some(s) => Some(s@),
                None => None,
            }) == self.named(name@),
    {
        match self.named_groups.get(name) {
            Some(index) => self.get(*index),
            None => None,
        }
    }
}

} // verus!
