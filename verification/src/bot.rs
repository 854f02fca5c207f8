//! The router: it classifies an inbound line as a command, as the match of a
//! trigger, or as a plain message that goes to the author's history.

use vstd::prelude::*;
use vstd::string::*;
use crate::history::{log_add, log_of, texts_of, MessageHistory};
use crate::regex_util::{
    compile_check, lemma_listed_names, lists, match_groups, named_groups, pairs_of,
    pattern_compiles, pattern_matching, pattern_named_groups, Matching, OwnedCaptures,
};
use crate::string_map::StringMap;
use crate::text::{
    chars_of, first_index_of, is_prefix, lemma_first_index_of, optional_text, split_after,
    split_once_space, starts_with, str_eq, string_of, trim_bounds, trimmed,
};

verus! {

/// What a command handler is given.
pub struct CommandContext {
    pub author: String,
    pub content: Option<String>,
}

/// What a trigger handler is given: the author of the message, and the
/// match of the trigger's pattern with every group under its own index.
pub struct TriggerContext {
    pub author: String,
    pub captures: OwnedCaptures,
}

/// A registered trigger.
pub struct TriggerEntry<T> {
    name: String,
    pattern: String,
    named: Vec<(String, usize)>,
    handler: T,
}

/// A registered trigger as contracts speak of it.
pub ghost struct TriggerSpec<T> {
    pub name: Seq<char>,
    pub pattern: Seq<char>,
    pub handler: T,
}

impl<T> TriggerEntry<T> {
    /// The trigger's name, pattern and handler.
    pub closed spec fn view(&self) -> TriggerSpec<T> {
        TriggerSpec { name: self.name@, pattern: self.pattern@, handler: self.handler }
    }

    /// The named groups that were recorded for the pattern are those of the pattern.
    pub closed spec fn wf(&self) -> bool {
        pattern_named_groups(self.pattern@) matches Some(m) && lists(pairs_of(self.named@), m)
    }
}

/// The router's tables: prefixes, commands by name, triggers in the order of
/// their registration, and the origins in which a trigger is suppressed.
pub struct Bot<C, T> {
    prefixes: Vec<String>,
    commands: StringMap<C>,
    triggers: Vec<TriggerEntry<T>>,
    ignored_triggers: Option<StringMap<Vec<String>>>,
}

/// A message that could not be dispatched because a trigger's pattern could
/// not be evaluated on it.
pub struct DispatchError {
    /// The name of the trigger.
    pub trigger: String,
    /// What the pattern engine reported.
    pub cause: fancy_regex::Error,
}

/// What the caller has to do with a message after it was routed.
#[allow(inconsistent_fields)]
pub enum Dispatch<'a, C, T> {
    /// A prefix matched and no command name followed: nothing is to be done.
    Dropped,
    /// Run this command handler and send what it returns to the origin.
    Command { handler: &'a C, ctx: CommandContext },
    /// Send this text to the origin.
    Reply { text: String },
    /// Run this trigger handler and send what it returns to the origin.
    Trigger { handler: &'a T, ctx: TriggerContext },
    /// A trigger matched that is suppressed in this origin: nothing is to be done.
    Ignored,
    /// The message was added to the author's history.
    Recorded,
}

/// The decision of the router on one message.
pub ghost enum Route {
    Dropped,
    Command { name: Seq<char>, content: Option<Seq<char>> },
    UnknownCommand,
    Trigger { index: int, groups: Seq<Option<Seq<char>>> },
    Ignored { index: int },
    Failed { index: int },
    Recorded,
}

/// The command name and remainder of `text` under the first of
/// `prefixes[from..]` that `text` begins with; `None` when it begins with none.
pub open spec fn dissect_from(prefixes: Seq<Seq<char>>, text: Seq<char>, from: int) -> Option<
    (Seq<char>, Option<Seq<char>>),
>
    decreases prefixes.len() - from,
{
    if from < 0 || from >= prefixes.len() {
        None
    } else if is_prefix(prefixes[from], text) {
        Some(split_once_space(text.subrange(prefixes[from].len() as int, text.len() as int)))
    } else {
        dissect_from(prefixes, text, from + 1)
    }
}

/// The command name and remainder of `text` under the first of `prefixes`
/// that it begins with.
pub open spec fn dissect_spec(prefixes: Seq<Seq<char>>, text: Seq<char>) -> Option<
    (Seq<char>, Option<Seq<char>>),
> {
    dissect_from(prefixes, text, 0)
}

/// The first position at or after `from` whose trigger does not come to
/// `Absent` on `text`; the number of triggers when there is none.
pub open spec fn first_decisive<T>(triggers: Seq<TriggerSpec<T>>, text: Seq<char>, from: int) -> int
    decreases triggers.len() - from,
{
    if from < 0 || from >= triggers.len() {
        triggers.len() as int
    } else if pattern_matching(triggers[from].pattern, text) != Matching::Absent {
        from
    } else {
        first_decisive(triggers, text, from + 1)
    }
}

/// Whether the table `ignored` suppresses `trigger` in `origin`.
pub open spec fn suppressed(
    ignored: Option<Map<Seq<char>, Seq<Seq<char>>>>,
    trigger: Seq<char>,
    origin: Seq<char>,
) -> bool {
    match ignored {
        Some(m) => m.dom().contains(trigger) && m[trigger].contains(origin),
        None => false,
    }
}

/// The table that a map of origin lists stands for.
pub open spec fn ignore_table(m: Option<StringMap<Vec<String>>>) -> Option<
    Map<Seq<char>, Seq<Seq<char>>>,
> {
    match m {
        Some(m) => Some(
            Map::new(|k: Seq<char>| m@.dom().contains(k), |k: Seq<char>| texts_of(m@[k]@)),
        ),
        None => None,
    }
}

/// The route of a message whose trimmed text is `text`.
pub open spec fn route_of<C, T>(
    prefixes: Seq<Seq<char>>,
    commands: Map<Seq<char>, C>,
    triggers: Seq<TriggerSpec<T>>,
    ignored: Option<Map<Seq<char>, Seq<Seq<char>>>>,
    origin: Seq<char>,
    text: Seq<char>,
) -> Route {
    match dissect_spec(prefixes, text) {
        Some((name, content)) => {
            if name.len() == 0 {
                Route::Dropped
            } else if commands.dom().contains(name) {
                Route::Command { name, content }
            } else {
                Route::UnknownCommand
            }
        },
        None => {
            let i = first_decisive(triggers, text, 0);
            if i >= triggers.len() {
                Route::Recorded
            } else {
                match pattern_matching(triggers[i].pattern, text) {
                    Matching::Found(groups) => {
                        if suppressed(ignored, triggers[i].name, origin) {
                            Route::Ignored { index: i }
                        } else {
                            Route::Trigger { index: i, groups }
                        }
                    },
                    _ => Route::Failed { index: i },
                }
            }
        },
    }
}

/// `first_decisive` lands on a trigger that does not come to `Absent`, and
/// every trigger before it does.
pub proof fn lemma_first_decisive<T>(triggers: Seq<TriggerSpec<T>>, text: Seq<char>, from: int)
    requires
        0 <= from <= triggers.len(),
    ensures
        from <= first_decisive(triggers, text, from) <= triggers.len(),
        first_decisive(triggers, text, from) < triggers.len() ==> pattern_matching(
            triggers[first_decisive(triggers, text, from)].pattern,
            text,
        ) != Matching::Absent,
        forall|j: int|
            from <= j < first_decisive(triggers, text, from) ==> pattern_matching(
                #[trigger] triggers[j].pattern,
                text,
            ) == Matching::Absent,
    decreases triggers.len() - from,
{
    if from < triggers.len() && pattern_matching(triggers[from].pattern, text)
        == Matching::Absent {
        lemma_first_decisive(triggers, text, from + 1);
    }
}

/// Of two triggers that both match a text, the later one never fires:
/// whatever the route of the message is, it is not that trigger.
pub proof fn lemma_earlier_trigger_wins<C, T>(
    prefixes: Seq<Seq<char>>,
    commands: Map<Seq<char>, C>,
    triggers: Seq<TriggerSpec<T>>,
    ignored: Option<Map<Seq<char>, Seq<Seq<char>>>>,
    origin: Seq<char>,
    text: Seq<char>,
    earlier: int,
    later: int,
)
    requires
        0 <= earlier < later < triggers.len(),
        pattern_matching(triggers[earlier].pattern, text) is Found,
        pattern_matching(triggers[later].pattern, text) is Found,
    ensures
        match route_of(prefixes, commands, triggers, ignored, origin, text) {
            Route::Trigger { index, .. } => index <= earlier,
            Route::Ignored { index } => index <= earlier,
            Route::Failed { index } => index < earlier,
            Route::Recorded => false,
            _ => dissect_spec(prefixes, text) is Some,
        },
{
    lemma_first_decisive(triggers, text, 0);
}

/// A text made of a prefix, a name without a space, a space and a remainder
/// is dissected into that name and that remainder, provided that no prefix
/// configured before this one also begins the text.
pub proof fn lemma_dissect_prefixed(
    prefixes: Seq<Seq<char>>,
    which: int,
    name: Seq<char>,
    rest: Seq<char>,
)
    requires
        0 <= which < prefixes.len(),
        !name.contains(' '),
        forall|j: int|
            0 <= j < which ==> !is_prefix(
                #[trigger] prefixes[j],
                prefixes[which] + name + seq![' '] + rest,
            ),
    ensures
        dissect_spec(prefixes, prefixes[which] + name + seq![' '] + rest) == Some(
            (name, Some(rest)),
        ),
{
    let p = prefixes[which];
    let text = p + name + seq![' '] + rest;
    let tail = text.subrange(p.len() as int, text.len() as int);
    assert(text.subrange(0, p.len() as int) =~= p);
    assert(tail =~= name + seq![' '] + rest);
    lemma_first_index_of(tail, 0, ' ');
    let k = first_index_of(tail, 0, ' ');
    assert(tail[name.len() as int] == ' ');
    if k < name.len() {
        assert(name[k] == ' ');
        assert(name.contains(' '));
    }
    assert(k == name.len());
    assert(tail.subrange(0, k) =~= name);
    assert(tail.subrange(k + 1, tail.len() as int) =~= rest);
    lemma_dissect_skips(prefixes, text, 0, which);
}

/// A line made of a prefix, the name of a registered command, a space and a
/// remainder is routed to that command with that remainder, provided that no
/// prefix configured before this one also begins the line. With a name that
/// is not registered the route is that of an unknown command.
pub proof fn lemma_prefixed_line_is_a_command<C, T>(
    prefixes: Seq<Seq<char>>,
    commands: Map<Seq<char>, C>,
    triggers: Seq<TriggerSpec<T>>,
    ignored: Option<Map<Seq<char>, Seq<Seq<char>>>>,
    origin: Seq<char>,
    which: int,
    name: Seq<char>,
    rest: Seq<char>,
)
    requires
        0 <= which < prefixes.len(),
        name.len() > 0,
        !name.contains(' '),
        forall|j: int|
            0 <= j < which ==> !is_prefix(
                #[trigger] prefixes[j],
                prefixes[which] + name + seq![' '] + rest,
            ),
    ensures
        route_of(
            prefixes,
            commands,
            triggers,
            ignored,
            origin,
            prefixes[which] + name + seq![' '] + rest,
        ) == if commands.dom().contains(name) {
            Route::Command { name, content: Some(rest) }
        } else {
            Route::UnknownCommand
        },
{
    lemma_dissect_prefixed(prefixes, which, name, rest);
}

/// A text that begins with no prefix and that every trigger comes to
/// `Absent` on is recorded in the history.
pub proof fn lemma_unmatched_text_is_recorded<C, T>(
    prefixes: Seq<Seq<char>>,
    commands: Map<Seq<char>, C>,
    triggers: Seq<TriggerSpec<T>>,
    ignored: Option<Map<Seq<char>, Seq<Seq<char>>>>,
    origin: Seq<char>,
    text: Seq<char>,
)
    requires
        forall|j: int| 0 <= j < prefixes.len() ==> !is_prefix(#[trigger] prefixes[j], text),
        forall|j: int|
            0 <= j < triggers.len() ==> pattern_matching(#[trigger] triggers[j].pattern, text)
                == Matching::Absent,
    ensures
        route_of(prefixes, commands, triggers, ignored, origin, text) == Route::Recorded,
{
    lemma_no_prefix(prefixes, text, 0);
    lemma_first_decisive(triggers, text, 0);
}

proof fn lemma_no_prefix(prefixes: Seq<Seq<char>>, text: Seq<char>, from: int)
    requires
        0 <= from <= prefixes.len(),
        forall|j: int| from <= j < prefixes.len() ==> !is_prefix(#[trigger] prefixes[j], text),
    ensures
        dissect_from(prefixes, text, from) is None,
    decreases prefixes.len() - from,
{
    if from < prefixes.len() {
        assert(!is_prefix(prefixes[from], text));
        lemma_no_prefix(prefixes, text, from + 1);
    }
}

proof fn lemma_dissect_skips(prefixes: Seq<Seq<char>>, text: Seq<char>, from: int, which: int)
    requires
        0 <= from <= which < prefixes.len(),
        forall|j: int| from <= j < which ==> !is_prefix(#[trigger] prefixes[j], text),
    ensures
        dissect_from(prefixes, text, from) == dissect_from(prefixes, text, which),
    decreases which - from,
{
    if from < which {
        assert(!is_prefix(prefixes[from], text));
        lemma_dissect_skips(prefixes, text, from + 1, which);
    }
}

/// Whether `list` holds the string `s`.
fn list_contains(list: &Vec<String>, s: &str) -> (r: bool)
    ensures
        r == texts_of(list@).contains(s@),
{
    let mut i: usize = 0;
    while i < list.len()
        invariant
            i <= list.len(),
            forall|j: int| 0 <= j < i ==> texts_of(list@)[j] != s@,
        decreases list.len() - i,
    {
        if str_eq(list[i].as_str(), s) {
            assert(texts_of(list@)[i as int] == s@);
            return true;
        }
        i += 1;
    }
    false
}

/// Extracts the command name and the remainder from a message: the text
/// after the first of `prefixes` that the message begins with, split at its
/// first space.
pub fn dissect(prefixes: &Vec<String>, text: &str) -> (r: Option<(String, Option<String>)>)
    ensures
        match r {
            Some((name, content)) => dissect_spec(texts_of(prefixes@), text@) == Some(
                (name@, optional_text(content)),
            ),
            None => dissect_spec(texts_of(prefixes@), text@) is None,
        },
{
    let chars = chars_of(text);
    let ghost ps = texts_of(prefixes@);
    let mut i: usize = 0;
    while i < prefixes.len()
        invariant
            i <= prefixes.len(),
            chars@ == text@,
            ps == texts_of(prefixes@),
            dissect_spec(ps, text@) == dissect_from(ps, text@, i as int),
        decreases prefixes.len() - i,
    {
        let prefix = chars_of(prefixes[i].as_str());
        assert(prefix@ == ps[i as int]);
        if starts_with(&chars, &prefix) {
            let (name, content) = split_after(&chars, prefix.len());
            return Some((name, content));
        }
        i += 1;
    }
    None
}

/// The text sent for the outcome of a handler: what it returned, or the
/// message of its failure after `Error: `.
pub fn reply_text(outcome: Result<String, String>) -> (text: String)
    ensures
        text@ == match outcome {
            Ok(s) => s@,
            Err(message) => "Error: "@ + message@,
        },
{
    match outcome {
        Ok(s) => s,
        Err(message) => {
            let mut text = "Error: ".to_owned();
            text.append(message.as_str());
            text
        },
    }
}

impl<C, T> Bot<C, T> {
    /// The invariant of the tables.
    pub closed spec fn wf(&self) -> bool {
        &&& self.commands.wf()
        &&& match self.ignored_triggers {
            Some(m) => m.wf(),
            None => true,
        }
        &&& forall|i: int| 0 <= i < self.triggers.len() ==> (#[trigger] self.triggers[i]).wf()
    }

    /// The configured prefixes, in their order.
    pub closed spec fn prefixes(&self) -> Seq<Seq<char>> {
        texts_of(self.prefixes@)
    }

    /// The handler of each command, by name.
    pub closed spec fn commands(&self) -> Map<Seq<char>, C> {
        self.commands@
    }

    /// The triggers, in the order of their registration.
    pub closed spec fn triggers(&self) -> Seq<TriggerSpec<T>> {
        Seq::new(self.triggers@.len(), |i: int| self.triggers@[i]@)
    }

    /// For each trigger name, the origins in which it is suppressed.
    pub closed spec fn ignored(&self) -> Option<Map<Seq<char>, Seq<Seq<char>>>> {
        ignore_table(self.ignored_triggers)
    }

    /// The route of a message from `origin` whose trimmed text is `text`.
    pub open spec fn route(&self, origin: Seq<char>, text: Seq<char>) -> Route {
        route_of(self.prefixes(), self.commands(), self.triggers(), self.ignored(), origin, text)
    }

    /// A router without commands and triggers.
    pub fn new(prefixes: Vec<String>, ignored_triggers: Option<StringMap<Vec<String>>>) -> (bot:
        Self)
        requires
            ignored_triggers matches Some(m) ==> m.wf(),
        ensures
            bot.wf(),
            bot.prefixes() == texts_of(prefixes@),
            bot.commands() == Map::<Seq<char>, C>::empty(),
            bot.triggers() == Seq::<TriggerSpec<T>>::empty(),
            bot.ignored() == ignore_table(ignored_triggers),
    {
        let bot = Bot { prefixes, commands: StringMap::new(), triggers: Vec::new(), ignored_triggers };
        assert(bot.triggers() =~= Seq::<TriggerSpec<T>>::empty());
        bot
    }

    /// Registers `cmd` under `name`, in place of a command registered under that name before.
    pub fn add_command(&mut self, name: String, cmd: C)
        requires
            old(self).wf(),
        ensures
            final(self).wf(),
            final(self).commands() == old(self).commands().insert(name@, cmd),
            final(self).prefixes() == old(self).prefixes(),
            final(self).triggers() == old(self).triggers(),
            final(self).ignored() == old(self).ignored(),
    {
        self.commands.insert(name, cmd);
    }

    /// Whether the trigger called `trigger` is suppressed in `origin`.
    fn is_suppressed(&self, trigger: &str, origin: &str) -> (r: bool)
        requires
            self.wf(),
        ensures
            r == suppressed(self.ignored(), trigger@, origin@),
    {
        match &self.ignored_triggers {
            Some(m) => match m.get(trigger) {
                Some(list) => list_contains(list, origin),
                None => false,
            },
            None => false,
        }
    }

    /// Registers a trigger after those registered before. A pattern that does
    /// not compile is an error and registers nothing.
    pub fn add_trigger(&mut self, name: String, pattern: String, trig: T) -> (r: Result<
        (),
        fancy_regex::Error,
    >)
        requires
            old(self).wf(),
        ensures
            final(self).wf(),
            final(self).commands() == old(self).commands(),
            final(self).prefixes() == old(self).prefixes(),
            final(self).ignored() == old(self).ignored(),
            (r is Ok) == pattern_compiles(pattern@),
            final(self).triggers() == if r is Ok {
                old(self).triggers().push(
                    TriggerSpec { name: name@, pattern: pattern@, handler: trig },
                )
            } else {
                old(self).triggers()
            },
    {
        match compile_check(pattern.as_str()) {
            Ok(()) => {},
            Err(e) => {
                return Err(e);
            },
        }
        let named = match named_groups(pattern.as_str()) {
            Ok(named) => named,
            Err(e) => {
                return Err(e);
            },
        };
        let ghost before = *self;
        self.triggers.push(TriggerEntry { name, pattern, named, handler: trig });
        proof {
            assert(self.triggers() =~= before.triggers().push(
                TriggerSpec { name: name@, pattern: pattern@, handler: trig },
            ));
            assert forall|i: int| 0 <= i < self.triggers.len() implies (
            #[trigger] self.triggers[i]).wf() by {
                if i < before.triggers.len() {
                    assert(self.triggers[i] == before.triggers[i]);
                }
            }
        }
        Ok(())
    }

    /// Whether `r` is what the caller is owed for the route `route` of a message by `author`.
    pub open spec fn answers(
        &self,
        route: Route,
        author: Seq<char>,
        r: Result<Dispatch<'_, C, T>, DispatchError>,
    ) -> bool {
        match route {
            Route::Dropped => r matches Ok(Dispatch::Dropped),
            Route::Command { name, content } => {
                &&& r matches Ok(Dispatch::Command { handler, ctx })
                &&& *handler == self.commands()[name]
                &&& ctx.author@ == author
                &&& optional_text(ctx.content) == content
            },
            Route::UnknownCommand => {
                &&& r matches Ok(Dispatch::Reply { text })
                &&& text@ == "Unknown command."@
            },
            Route::Trigger { index, groups } => {
                &&& r matches Ok(Dispatch::Trigger { handler, ctx })
                &&& *handler == self.triggers()[index].handler
                &&& ctx.author@ == author
                &&& ctx.captures.wf()
                &&& ctx.captures.groups() == groups
                &&& pattern_named_groups(self.triggers()[index].pattern) matches Some(names)
                &&& ctx.captures.names() == names
            },
            Route::Ignored { index } => r matches Ok(Dispatch::Ignored),
            Route::Failed { index } => {
                &&& r matches Err(e)
                &&& e.trigger@ == self.triggers()[index].name
            },
            Route::Recorded => r matches Ok(Dispatch::Recorded),
        }
    }

    /// Routes one message. The text is trimmed first. A text that begins with
    /// a prefix is a command line: its command is looked up by name. Any other
    /// text is tried on the triggers in the order of their registration, and
    /// the first that matches decides. A text that no trigger matches is added
    /// to the history of `author`; nothing else changes the history.
    pub fn handle_message<'a>(
        &'a self,
        history: &mut MessageHistory,
        origin: &str,
        author: &str,
        content: &str,
    ) -> (r: Result<Dispatch<'a, C, T>, DispatchError>)
        requires
            self.wf(),
            old(history).wf(),
        ensures
            final(history).wf(),
            final(history).capacity() == old(history).capacity(),
            self.answers(self.route(origin@, trimmed(content@)), author@, r),
            final(history)@ == if self.route(origin@, trimmed(content@)) is Recorded {
                old(history)@.insert(
                    author@,
                    log_add(
                        log_of(old(history)@, author@),
                        trimmed(content@),
                        old(history).capacity(),
                    ),
                )
            } else {
                old(history)@
            },
    {
        let chars = chars_of(content);
        let (from, to) = trim_bounds(&chars);
        let text = string_of(&chars, from, to);
        assert(text@ == trimmed(content@));
        if let Some((name, remainder)) = dissect(&self.prefixes, text.as_str()) {
            if name.as_str().unicode_len() == 0 {
                return Ok(Dispatch::Dropped);
            }
            return match self.commands.get(name.as_str()) {
                Some(handler) => Ok(
                    Dispatch::Command {
                        handler,
                        ctx: CommandContext { author: author.to_owned(), content: remainder },
                    },
                ),
                None => Ok(Dispatch::Reply { text: "Unknown command.".to_owned() }),
            };
        }
        let ghost triggers = self.triggers();
        let ghost before = *history;
        let mut i: usize = 0;
        while i < self.triggers.len()
            invariant
                i <= self.triggers.len(),
                self.wf(),
                *history == before,
                before == *old(history),
                before.wf(),
                text@ == trimmed(content@),
                dissect_spec(self.prefixes(), text@) is None,
                triggers == self.triggers(),
                first_decisive(triggers, text@, 0) == first_decisive(triggers, text@, i as int),
            decreases self.triggers.len() - i,
        {
            let trigger = &self.triggers[i];
            assert(triggers[i as int] == trigger@);
            match match_groups(trigger.pattern.as_str(), text.as_str()) {
                Err(cause) => {
                    return Err(DispatchError { trigger: trigger.name.clone(), cause });
                },
                Ok(Some(groups)) => {
                    if self.is_suppressed(trigger.name.as_str(), origin) {
                        return Ok(Dispatch::Ignored);
                    }
                    assert(trigger.wf());
                    proof {
                        lemma_listed_names(
                            pairs_of(trigger.named@),
                            pattern_named_groups(trigger.pattern@)->0,
                        );
                    }
                    let captures = OwnedCaptures::new(&trigger.named, groups);
                    return Ok(
                        Dispatch::Trigger {
                            handler: &trigger.handler,
                            ctx: TriggerContext { author: author.to_owned(), captures },
                        },
                    );
                },
                Ok(None) => {},
            }
            i += 1;
        }
        history.add_message(author, text);
        Ok(Dispatch::Recorded)
    }
}

/// Whether `name` is the name of a channel: it begins with `#`, `&`, `+` or `!`.
pub open spec fn channel_name(name: Seq<char>) -> bool {
    name.len() > 0 && (name[0] == '#' || name[0] == '&' || name[0] == '+' || name[0] == '!')
}

/// Calls `ChannelExt::is_channel_name` of the crate `irc`, which tests
/// whether the name begins with one of the four characters that mark a channel.
#[verifier::external_body]
fn is_channel_name(name: &str) -> (r: bool)
    ensures
        r == channel_name(name@),
{
    irc::proto::ChannelExt::is_channel_name(&name)
}

/// What is done with a message that was sent to `origin`.
pub enum Inbound {
    /// It is routed as a message of this author.
    Routed { author: String },
    /// It was sent to a channel and names no author: it is left alone, with a warning.
    Anonymous,
    /// It was not sent to a channel: it is left alone.
    Private,
}

/// Decides whether a message is routed: one that was sent to a channel by
/// a sender with a nickname.
pub fn accept_message(origin: &str, nickname: Option<String>) -> (r: Inbound)
    ensures
        if !channel_name(origin@) {
            r is Private
        } else {
            match nickname {
                Some(name) => r matches Inbound::Routed { author } && author@ == name@,
                None => r is Anonymous,
            }
        },
{
    if is_channel_name(origin) {
        match nickname {
            Some(author) => Inbound::Routed { author },
            None => Inbound::Anonymous,
        }
    } else {
        Inbound::Private
    }
}

} // verus!
