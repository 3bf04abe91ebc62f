//! Parsed argument values and the consumers that produce them.

pub mod arg_bounded_num;
pub mod arg_players;

use vstd::prelude::*;
use vstd::string::StringExecFns;
use crate::command::args::arg_bounded_num::BoundedNumArgumentConsumer;
use crate::command::args::arg_players::PlayersArgumentConsumer;
use crate::command::{CommandSender, ParseFailure};
use crate::server::Server;
use crate::text::same_text;

verus! {

/// A parsed argument, tagged with its type.
#[derive(Debug, PartialEq, Eq)]
pub enum Arg {
    /// Positions of the selected players in the server's list.
    Players(Vec<usize>),
    Num(i32),
}

/// What an `Arg` holds, as a mathematical value.
pub enum ArgValue {
    Players(Seq<usize>),
    Num(i32),
}

impl View for Arg {
    type V = ArgValue;

    open spec fn view(&self) -> ArgValue {
        match self {
            Arg::Players(targets) => ArgValue::Players(targets@),
            Arg::Num(value) => ArgValue::Num(*value),
        }
    }
}

/// One argument name with the value parsed for it.
#[derive(Debug)]
pub struct Binding {
    pub name: String,
    pub value: Arg,
}

/// The map that a list of bindings stands for; a later binding of a name
/// replaces an earlier one.
pub open spec fn bound(bindings: Seq<Binding>) -> Map<Seq<char>, ArgValue>
    decreases bindings.len(),
{
    if bindings.len() == 0 {
        Map::empty()
    } else {
        bound(bindings.drop_last()).insert(bindings.last().name@, bindings.last().value@)
    }
}

/// The arguments parsed during one dispatch, keyed by the names of the
/// argument nodes that were passed.
#[derive(Debug)]
pub struct ConsumedArgs {
    pub bindings: Vec<Binding>,
}

impl View for ConsumedArgs {
    type V = Map<Seq<char>, ArgValue>;

    open spec fn view(&self) -> Map<Seq<char>, ArgValue> {
        bound(self.bindings@)
    }
}

impl ConsumedArgs {
    /// No arguments.
    pub fn new() -> (args: ConsumedArgs)
        ensures
            args@ == Map::<Seq<char>, ArgValue>::empty(),
    {
        ConsumedArgs { bindings: Vec::new() }
    }

    /// Binds `name` to `value`.
    pub fn insert(&mut self, name: &str, value: Arg)
        ensures
            final(self)@ == old(self)@.insert(name@, value@),
    {
        let binding = Binding { name: String::from_str(name), value };
        self.bindings.push(binding);
        assert(self.bindings@.drop_last() == old(self).bindings@);
    }

    /// The value bound to `name`, if any.
    pub fn get(&self, name: &str) -> (value: Option<&Arg>)
        ensures
            match value {
                Some(arg) => self@.contains_key(name@) && self@[name@] == arg@,
                None => !self@.contains_key(name@),
            },
    {
        let mut i: usize = self.bindings.len();
        assert(self.bindings@.take(i as int) == self.bindings@);
        while i > 0
            invariant
                i <= self.bindings@.len(),
                self@.contains_key(name@) == bound(self.bindings@.take(i as int)).contains_key(name@),
                self@.contains_key(name@) ==> self@[name@] == bound(self.bindings@.take(i as int))[name@],
            decreases i,
        {
            i -= 1;
            assert(self.bindings@.take(i + 1).drop_last() == self.bindings@.take(i as int));
            if same_text(self.bindings[i].name.as_str(), name) {
                return Some(&self.bindings[i].value);
            }
        }
        None
    }
}

/// The parser bound to an argument node.
#[derive(Clone, Copy, Debug, PartialEq, Eq)]
pub enum ArgumentConsumer {
    BoundedNum(BoundedNumArgumentConsumer),
    Players(PlayersArgumentConsumer),
}

impl ArgumentConsumer {
    /// What the consumer makes of the tokens from `cursor` on: the value and
    /// the cursor behind the tokens it used, or why it rejects them.
    pub open spec fn consume(
        self,
        tokens: Seq<Seq<char>>,
        cursor: int,
        sender: CommandSender,
        names: Seq<Seq<char>>,
    ) -> Result<(ArgValue, int), ParseFailure> {
        match self {
            ArgumentConsumer::BoundedNum(consumer) => match consumer.consume(tokens, cursor) {
                Ok((value, next)) => Ok((ArgValue::Num(value), next)),
                Err(failure) => Err(failure),
            },
            ArgumentConsumer::Players(consumer) => match consumer.consume(tokens, cursor, sender, names) {
                Ok((targets, next)) => Ok((ArgValue::Players(targets), next)),
                Err(failure) => Err(failure),
            },
        }
    }

    /// Tries to parse a value from the tokens at `cursor`. Players are looked
    /// up in `server` as it is now.
    pub fn try_consume(
        &self,
        tokens: &Vec<Vec<char>>,
        cursor: usize,
        sender: &CommandSender,
        server: &Server,
    ) -> (parsed: Result<(Arg, usize), ParseFailure>)
        ensures
            match self.consume(crate::command::tokenizer::token_views(tokens@), cursor as int, *sender, server.names()) {
                Ok((value, next)) => parsed matches Ok((arg, after)) && arg@ == value && after == next,
                Err(failure) => parsed == Err::<(Arg, usize), ParseFailure>(failure),
            },
    {
        match self {
            ArgumentConsumer::BoundedNum(consumer) => match consumer.try_consume(tokens, cursor) {
                Ok((value, next)) => Ok((Arg::Num(value), next)),
                Err(failure) => Err(failure),
            },
            ArgumentConsumer::Players(consumer) => match consumer.try_consume(tokens, cursor, sender, server) {
                Ok((targets, next)) => Ok((Arg::Players(targets), next)),
                Err(failure) => Err(failure),
            },
        }
    }
}

} // verus!
