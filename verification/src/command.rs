//! The command engine: tokens, argument consumers, trees and the dispatcher.

pub mod args;
pub mod commands;
pub mod dispatcher;
pub mod tokenizer;
pub mod tree;
pub mod tree_builder;

use vstd::prelude::*;
use crate::command::args::{ArgValue, ConsumedArgs};
use crate::server::Server;

verus! {

/// Why an argument consumer rejected its input.
#[derive(Clone, Copy, Debug, PartialEq, Eq, Structural)]
pub enum ParseFailure {
    /// The token is not a numeral.
    NotANumber,
    /// The token is a numeral outside the accepted range.
    OutOfRange,
    /// The token starts like a selector expression and is none.
    InvalidSelectorSyntax,
    /// The selector is well-formed and selects nobody.
    NoMatchingTargets,
}

/// Why an executor gave up.
#[derive(Clone, Copy, Debug, PartialEq, Eq, Structural)]
pub enum ExecutorFailure {
    /// An argument that the executor expects is missing or holds a value of another type.
    InvalidConsumption,
    /// A target does not refer to a player who is online.
    UnknownPlayer,
    /// The requested amount of experience does not fit a player's counter.
    ExperienceOverflow,
}

/// The single error that a failed dispatch reports to the sender.
#[derive(Clone, Copy, Debug, PartialEq, Eq, Structural)]
pub enum CommandError {
    /// The line is empty or its first token is no registered alias.
    UnknownCommand,
    /// The walk stopped after matching `depth` tokens: either tokens remain that
    /// no child accepts, or the input ended at a node without an executor.
    UsageError { depth: usize },
    /// No keyword matched and the first argument consumer that was tried failed.
    ArgumentParseError(ParseFailure),
    /// A branch that could have taken the next token is closed to this sender.
    PermissionDenied,
    /// The executor ran and reported a failure.
    ExecutorFailure(ExecutorFailure),
}

/// Who issued a command.
#[derive(Clone, Copy, Debug, PartialEq, Eq, Structural)]
pub enum SenderKind {
    /// The player at this position of the server's player list.
    Player(usize),
    Console,
    /// A remote administration channel.
    Rcon,
    /// A programmatic source such as a command block.
    CommandBlock,
}

/// The context of one invocation: who issued the command, what they may do,
/// and the messages addressed to them so far.
#[derive(Debug)]
pub struct CommandSender {
    pub kind: SenderKind,
    pub permission_level: u8,
    pub messages: Vec<String>,
}

impl CommandSender {
    /// The text of the messages addressed to the sender, oldest first.
    pub open spec fn outbox(self) -> Seq<Seq<char>> {
        Seq::new(self.messages@.len(), |i: int| self.messages@[i]@)
    }

    /// A sender who has received no message yet.
    pub fn new(kind: SenderKind, permission_level: u8) -> (sender: CommandSender)
        ensures
            sender.kind == kind,
            sender.permission_level == permission_level,
            sender.outbox() == Seq::<Seq<char>>::empty(),
    {
        CommandSender { kind, permission_level, messages: Vec::new() }
    }

    /// Whether the sender is a player.
    pub fn is_player(&self) -> (is: bool)
        ensures
            is == (self.kind is Player),
    {
        match self.kind {
            SenderKind::Player(_) => true,
            _ => false,
        }
    }

    /// Addresses `text` to the sender.
    pub fn send_message(&mut self, text: String)
        ensures
            final(self).kind == old(self).kind,
            final(self).permission_level == old(self).permission_level,
            final(self).outbox() == old(self).outbox().push(text@),
    {
        self.messages.push(text);
        assert(self.outbox() =~= old(self).outbox().push(text@));
    }
}

/// What a node asks of a sender: the capability needed to enter it.
#[derive(Clone, Copy, Debug, PartialEq, Eq, Structural)]
pub enum Requirement {
    /// Only players are allowed.
    PlayerOnly,
    /// Senders of at least this permission level are allowed.
    PermissionLevel(u8),
}

impl Requirement {
    /// Whether `sender` has the capability.
    pub open spec fn allows(self, sender: CommandSender) -> bool {
        match self {
            Requirement::PlayerOnly => sender.kind is Player,
            Requirement::PermissionLevel(level) => sender.permission_level >= level,
        }
    }

    /// Evaluates the requirement against `sender`.
    pub fn test(&self, sender: &CommandSender) -> (allowed: bool)
        ensures
            allowed == self.allows(*sender),
    {
        match self {
            Requirement::PlayerOnly => sender.is_player(),
            Requirement::PermissionLevel(level) => sender.permission_level >= *level,
        }
    }
}

/// What a node runs when the input ends at it.
pub trait CommandExecutor {
    /// The executor's behaviour: whether a run that starts from `sender` and
    /// `server` with the arguments `args` may end in `sender_after`,
    /// `server_after` and `result`.
    spec fn outcome(
        &self,
        sender: CommandSender,
        server: Server,
        args: Map<Seq<char>, ArgValue>,
        sender_after: CommandSender,
        server_after: Server,
        result: Result<(), CommandError>,
    ) -> bool;

    /// Performs the command's effect on the server and reports to the sender.
    fn execute(&self, sender: &mut CommandSender, server: &mut Server, args: &ConsumedArgs) -> (result:
        Result<(), CommandError>)
        ensures
            self.outcome(*old(sender), *old(server), args@, *final(sender), *final(server), result),
    ;
}

} // verus!
