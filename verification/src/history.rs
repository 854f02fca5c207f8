//! A bounded log of messages for every author: the most recent messages are
//! kept, the oldest leave first, and a message can be replaced in place.

use std::collections::VecDeque;
use vstd::prelude::*;
use vstd::string::*;
use crate::string_map::StringMap;

verus! {

/// The texts held by a sequence of strings.
pub open spec fn texts_of(s: Seq<String>) -> Seq<Seq<char>> {
    Seq::new(s.len(), |i: int| s[i]@)
}

/// The log of `author` in `m`, oldest message first; empty for an author that `m` does not know.
pub open spec fn log_of(m: Map<Seq<char>, Seq<Seq<char>>>, author: Seq<char>) -> Seq<Seq<char>> {
    if m.dom().contains(author) {
        m[author]
    } else {
        Seq::empty()
    }
}

/// A log after `text` was added under the capacity `cap`: the text goes to the
/// end, and what is left is the `cap` most recent messages.
pub open spec fn log_add(log: Seq<Seq<char>>, text: Seq<char>, cap: nat) -> Seq<Seq<char>> {
    let grown = log.push(text);
    if grown.len() <= cap {
        grown
    } else {
        grown.subrange(grown.len() - cap, grown.len() as int)
    }
}

/// A log after each of `texts` was added in turn.
pub open spec fn log_add_all(log: Seq<Seq<char>>, texts: Seq<Seq<char>>, cap: nat) -> Seq<
    Seq<char>,
>
    decreases texts.len(),
{
    if texts.len() == 0 {
        log
    } else {
        log_add(log_add_all(log, texts.drop_last(), cap), texts.last(), cap)
    }
}

/// The `n` most recent messages of a log, oldest first; the whole log when it holds fewer.
pub open spec fn log_tail(log: Seq<Seq<char>>, n: nat) -> Seq<Seq<char>> {
    if n >= log.len() {
        log
    } else {
        log.subrange(log.len() - n, log.len() as int)
    }
}

/// A log with the message at `depth` replaced, depth 0 being the most recent.
pub open spec fn log_edit(log: Seq<Seq<char>>, depth: nat, text: Seq<char>) -> Seq<Seq<char>> {
    log.update(log.len() - 1 - depth, text)
}

/// The message history of all authors.
pub struct MessageHistory {
    map: StringMap<VecDeque<String>>,
    maxlen: usize,
}

impl MessageHistory {
    /// The invariant: no author's log is longer than the capacity.
    pub closed spec fn wf(&self) -> bool {
        &&& self.map.wf()
        &&& forall|k: Seq<char>| #[trigger]
            self.map@.dom().contains(k) ==> self.map@[k]@.len() <= self.maxlen
    }

    /// Every recorded author with their log, oldest message first.
    pub closed spec fn view(&self) -> Map<Seq<char>, Seq<Seq<char>>> {
        Map::new(
            |k: Seq<char>| self.map@.dom().contains(k),
            |k: Seq<char>| texts_of(self.map@[k]@),
        )
    }

    /// The number of messages kept for each author.
    pub closed spec fn capacity(&self) -> nat {
        self.maxlen as nat
    }

    /// In a well-formed history every log fits the capacity.
    pub proof fn lemma_bounded(&self, author: Seq<char>)
        requires
            self.wf(),
        ensures
            log_of(self@, author).len() <= self.capacity(),
    {
        if self.map@.dom().contains(author) {
            assert(self@[author].len() == self.map@[author]@.len());
        }
    }

    /// A history without authors that keeps `maxlen` messages for each.
    pub fn new(maxlen: usize) -> (h: MessageHistory)
        ensures
            h.wf(),
            h@ == Map::<Seq<char>, Seq<Seq<char>>>::empty(),
            h.capacity() == maxlen,
    {
        let h = MessageHistory { map: StringMap::new(), maxlen };
        assert(h@ =~= Map::<Seq<char>, Seq<Seq<char>>>::empty());
        h
    }

    /// The most recent message of `user`.
    pub fn last_msg(&self, user: &str) -> (r: Option<String>)
        requires
            self.wf(),
        ensures
            match r {
                Some(s) => log_of(self@, user@).len() > 0 && s@ == log_of(self@, user@).last(),
                None => log_of(self@, user@).len() == 0,
            },
    {
        match self.map.get(user) {
            Some(deque) => {
                let n = deque.len();
                if n == 0 {
                    None
                } else {
                    Some(deque[n - 1].clone())
                }
            },
            None => None,
        }
    }

    /// Up to `count` of the most recent messages of `user`, oldest first;
    /// `None` only for an author that was never recorded.
    pub fn last_msgs(&self, user: &str, count: usize) -> (r: Option<Vec<String>>)
        requires
            self.wf(),
        ensures
            match r {
                Some(v) => self@.dom().contains(user@) && texts_of(v@) == log_tail(
                    self@[user@],
                    count as nat,
                ),
                None => !self@.dom().contains(user@),
            },
    {
        match self.map.get(user) {
            Some(deque) => {
                let n = deque.len();
                let first: usize = if n < count {
                    0
                } else {
                    n - count
                };
                let mut out: Vec<String> = Vec::new();
                let mut i: usize = first;
                while i < n
                    invariant
                        first <= i <= n,
                        n == deque@.len(),
                        texts_of(out@) == texts_of(deque@).subrange(first as int, i as int),
                    decreases n - i,
                {
                    let ghost had = out@;
                    out.push(deque[i].clone());
                    i += 1;
                    assert(texts_of(out@) =~= texts_of(had).push(deque@[i - 1]@));
                    assert(texts_of(out@) =~= texts_of(deque@).subrange(first as int, i as int));
                }
                assert(texts_of(deque@).subrange(0, n as int) =~= texts_of(deque@));
                Some(out)
            },
            None => None,
        }
    }

    /// Replaces the message of `user` at depth `pos`, depth 0 being the most
    /// recent. Returns `false`, and changes nothing, when the author is
    /// unknown or has no message that deep.
    pub fn edit_message(&mut self, user: &str, pos: usize, edited: String) -> (ok: bool)
        requires
            old(self).wf(),
        ensures
            final(self).wf(),
            final(self).capacity() == old(self).capacity(),
            ok == (pos < log_of(old(self)@, user@).len()),
            ok ==> final(self)@ == old(self)@.insert(
                user@,
                log_edit(old(self)@[user@], pos as nat, edited@),
            ),
            !ok ==> final(self)@ == old(self)@,
    {
        let ghost before = *self;
        match self.map.take(user) {
            Some(entry) => {
                let (key, mut deque) = entry;
                let n = deque.len();
                let ghost was = deque@;
                let ok = pos < n;
                if ok {
                    let at: usize = n - 1 - pos;
                    deque.remove(at);
                    deque.insert(at, edited);
                    assert(texts_of(deque@) =~= log_edit(texts_of(was), pos as nat, edited@));
                }
                self.map.insert(key, deque);
                proof {
                    assert(self.map@.dom() =~= before.map@.dom());
                    assert(self.wf());
                    if ok {
                        assert(self@ =~= before@.insert(
                            user@,
                            log_edit(before@[user@], pos as nat, edited@),
                        ));
                    } else {
                        assert(self.map@ =~= before.map@);
                        assert(self@ =~= before@);
                    }
                }
                ok
            },
            None => {
                assert(self.map@ =~= before.map@);
                assert(self@ =~= before@);
                false
            },
        }
    }

    /// Adds `message` to the log of `user`; when the log is full, the oldest
    /// message leaves first.
    pub fn add_message(&mut self, user: &str, message: String)
        requires
            old(self).wf(),
        ensures
            final(self).wf(),
            final(self).capacity() == old(self).capacity(),
            final(self)@ == old(self)@.insert(
                user@,
                log_add(log_of(old(self)@, user@), message@, old(self).capacity()),
            ),
    {
        let ghost before = *self;
        let (key, mut deque) = match self.map.take(user) {
            Some(entry) => entry,
            None => (user.to_owned(), VecDeque::new()),
        };
        let ghost was = deque@;
        assert(texts_of(was) == log_of(before@, user@)) by {
            if !before.map@.dom().contains(user@) {
                assert(texts_of(was) =~= Seq::<Seq<char>>::empty());
            }
        }
        assert(was.len() <= self.maxlen);
        if self.maxlen > 0 {
            if deque.len() == self.maxlen {
                deque.pop_front();
            }
            deque.push_back(message);
        }
        assert(texts_of(deque@) =~= log_add(texts_of(was), message@, self.maxlen as nat));
        self.map.insert(key, deque);
        proof {
            assert(self.wf()) by {
                assert forall|k: Seq<char>| #[trigger]
                    self.map@.dom().contains(k) implies self.map@[k]@.len() <= self.maxlen by {
                    if k != user@ {
                        assert(before.map@.dom().contains(k));
                    }
                }
            }
            assert(self@ =~= before@.insert(
                user@,
                log_add(log_of(before@, user@), message@, before.capacity()),
            ));
        }
    }
}

/// Once `cap` messages or more, and at least one, were added to a log,
/// whatever it held before, it holds exactly the `cap` most recent of them,
/// oldest first, and asking for the `cap` most recent returns all of it.
pub proof fn lemma_full_log_is_most_recent(
    log: Seq<Seq<char>>,
    texts: Seq<Seq<char>>,
    cap: nat,
)
    requires
        texts.len() >= 1,
        texts.len() >= cap,
    ensures
        log_add_all(log, texts, cap) == texts.subrange(texts.len() - cap, texts.len() as int),
        log_tail(log_add_all(log, texts, cap), cap) == log_add_all(log, texts, cap),
{
    lemma_add_all_is_suffix(log, texts, cap);
    let all = log + texts;
    assert(all.subrange(all.len() - cap, all.len() as int) =~= texts.subrange(
        texts.len() - cap,
        texts.len() as int,
    ));
}

/// Adding messages one by one keeps the end of the log followed by the
/// messages, cut to the capacity.
pub proof fn lemma_add_all_is_suffix(log: Seq<Seq<char>>, texts: Seq<Seq<char>>, cap: nat)
    ensures
        log_add_all(log, texts, cap) == log_tail(
            log + texts,
            if texts.len() == 0 {
                log.len()
            } else {
                cap
            },
        ),
    decreases texts.len(),
{
    if texts.len() == 0 {
        assert(log + texts =~= log);
    } else {
        let init = texts.drop_last();
        lemma_add_all_is_suffix(log, init, cap);
        let prev = log_add_all(log, init, cap);
        let all = log + texts;
        assert(all =~= (log + init).push(texts.last()));
        assert(log_add(prev, texts.last(), cap) =~= log_tail(all, cap));
    }
}

/// After a message was added to a log that keeps at least one, replacing the
/// most recent message is possible and leaves the replacement as the most recent.
pub proof fn lemma_edit_after_add(
    log: Seq<Seq<char>>,
    text: Seq<char>,
    replacement: Seq<char>,
    cap: nat,
)
    requires
        cap >= 1,
    ensures
        log_add(log, text, cap).len() >= 1,
        log_add(log, text, cap).last() == text,
        log_edit(log_add(log, text, cap), 0, replacement).last() == replacement,
        log_edit(log_add(log, text, cap), 0, replacement).drop_last() == log_add(
            log,
            text,
            cap,
        ).drop_last(),
{
}

} // verus!
