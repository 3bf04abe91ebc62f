//! Command trees and their nodes.

use vstd::prelude::*;
use vstd::string::StringExecFns;
use crate::command::args::ArgumentConsumer;
use crate::command::{CommandSender, Requirement};
use crate::text::spells;

verus! {

/// What a node matches: a keyword, or a typed argument.
#[derive(Debug)]
pub enum NodeType {
    /// Matches the token that equals `name`, case-sensitively.
    Literal { name: String },
    /// Matches what `consumer` accepts; the parsed value is kept under `name`.
    Argument { name: String, consumer: ArgumentConsumer },
}

/// A node of a command tree. It owns its children, whose order decides
/// between siblings that accept the same input.
#[derive(Debug)]
pub struct CommandNode<E> {
    pub node_type: NodeType,
    pub children: Vec<CommandNode<E>>,
    /// Runs when the input ends at this node.
    pub executor: Option<E>,
    /// Closes the node to the senders it does not allow.
    pub requirement: Option<Requirement>,
}

impl<E> CommandNode<E> {
    /// The keyword of a literal node, the key of an argument node.
    pub open spec fn name(self) -> Seq<char> {
        match self.node_type {
            NodeType::Literal { name } => name@,
            NodeType::Argument { name, .. } => name@,
        }
    }

    /// Whether `sender` may enter this node.
    pub open spec fn permits(self, sender: CommandSender) -> bool {
        match self.requirement {
            Some(requirement) => requirement.allows(sender),
            None => true,
        }
    }

    /// A node of the given type without children, executor or requirement.
    pub fn new(node_type: NodeType) -> (node: CommandNode<E>)
        ensures
            node.node_type == node_type,
            node.children@.len() == 0,
            node.executor is None,
            node.requirement is None,
    {
        CommandNode { node_type, children: Vec::new(), executor: None, requirement: None }
    }

    /// The node with `child` as its new last child.
    pub fn with_child(self, child: CommandNode<E>) -> (node: CommandNode<E>)
        ensures
            node.children@ == self.children@.push(child),
            node.node_type == self.node_type,
            node.executor == self.executor,
            node.requirement == self.requirement,
    {
        let mut node = self;
        node.children.push(child);
        node
    }

    /// The node with `executor` bound to it, in place of any earlier one.
    pub fn execute(self, executor: E) -> (node: CommandNode<E>)
        ensures
            node.executor == Some(executor),
            node.node_type == self.node_type,
            node.children == self.children,
            node.requirement == self.requirement,
    {
        let mut node = self;
        node.executor = Some(executor);
        node
    }

    /// The node with `requirement` on it, in place of any earlier one.
    pub fn require(self, requirement: Requirement) -> (node: CommandNode<E>)
        ensures
            node.requirement == Some(requirement),
            node.node_type == self.node_type,
            node.children == self.children,
            node.executor == self.executor,
    {
        let mut node = self;
        node.requirement = Some(requirement);
        node
    }

    /// The keyword of a literal node, the key of an argument node.
    pub fn name_str(&self) -> (name: &str)
        ensures
            name@ == self.name(),
    {
        match &self.node_type {
            NodeType::Literal { name } => name.as_str(),
            NodeType::Argument { name, .. } => name.as_str(),
        }
    }

    /// Evaluates the node's requirement, if it has one, against `sender`.
    pub fn is_open_to(&self, sender: &CommandSender) -> (open: bool)
        ensures
            open == self.permits(*sender),
    {
        match &self.requirement {
            Some(requirement) => requirement.test(sender),
            None => true,
        }
    }
}

/// The text of each of `names`.
pub open spec fn texts(names: Seq<String>) -> Seq<Seq<char>> {
    Seq::new(names.len(), |i: int| names[i]@)
}

/// Whether no text occurs twice in `names`.
pub open spec fn distinct(names: Seq<Seq<char>>) -> bool {
    forall|i: int, j: int| 0 <= i < j < names.len() ==> names[i] != names[j]
}

/// A command family: its aliases, a description for usage listings, and the
/// nodes that may follow an alias.
#[derive(Debug)]
pub struct CommandTree<E> {
    pub names: Vec<String>,
    pub description: String,
    pub children: Vec<CommandNode<E>>,
}

impl<E> CommandTree<E> {
    /// The aliases under which the command is invoked.
    pub open spec fn aliases(self) -> Seq<Seq<char>> {
        texts(self.names@)
    }

    /// A tree has at least one alias and no alias twice.
    pub open spec fn wf(self) -> bool {
        self.aliases().len() > 0 && distinct(self.aliases())
    }

    /// Whether `token` is one of the aliases.
    pub open spec fn answers_to(self, token: Seq<char>) -> bool {
        exists|i: int| 0 <= i < self.aliases().len() && #[trigger] self.aliases()[i] == token
    }

    /// A tree without nodes. It needs at least one alias, and no alias twice.
    pub fn new(names: &[&str], description: &str) -> (tree: CommandTree<E>)
        requires
            names@.len() > 0,
            forall|i: int, j: int| 0 <= i < j < names@.len() ==> names@[i]@ != names@[j]@,
        ensures
            tree.wf(),
            tree.aliases() == Seq::new(names@.len(), |i: int| names@[i]@),
            tree.description@ == description@,
            tree.children@.len() == 0,
    {
        let mut owned: Vec<String> = Vec::new();
        let mut i: usize = 0;
        while i < names.len()
            invariant
                i <= names@.len(),
                owned@.len() == i,
                forall|k: int| 0 <= k < i ==> owned@[k]@ == names@[k]@,
            decreases names@.len() - i,
        {
            owned.push(String::from_str(names[i]));
            i += 1;
        }
        let tree = CommandTree { names: owned, description: String::from_str(description), children: Vec::new() };
        assert(tree.aliases() =~= Seq::new(names@.len(), |i: int| names@[i]@));
        tree
    }

    /// The tree with `child` as the new last node below its root.
    pub fn with_child(self, child: CommandNode<E>) -> (tree: CommandTree<E>)
        ensures
            tree.children@ == self.children@.push(child),
            tree.names == self.names,
            tree.description == self.description,
    {
        let mut tree = self;
        tree.children.push(child);
        tree
    }

    /// Whether `token` is one of the tree's aliases.
    pub fn has_alias(&self, token: &Vec<char>) -> (has: bool)
        ensures
            has == self.answers_to(token@),
    {
        let mut i: usize = 0;
        while i < self.names.len()
            invariant
                i <= self.names@.len(),
                forall|k: int| 0 <= k < i ==> self.aliases()[k] != token@,
            decreases self.names@.len() - i,
        {
            if spells(token, self.names[i].as_str()) {
                assert(self.aliases()[i as int] == token@);
                return true;
            }
            i += 1;
        }
        false
    }
}

} // verus!
