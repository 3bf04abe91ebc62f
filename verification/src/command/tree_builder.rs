//! Builders for the nodes of a command tree.

use vstd::prelude::*;
use vstd::string::StringExecFns;
use crate::command::args::ArgumentConsumer;
use crate::command::tree::{CommandNode, NodeType};

verus! {

/// A node that matches the keyword `name`.
pub fn literal<E>(name: &str) -> (node: CommandNode<E>)
    ensures
        node.node_type matches NodeType::Literal { name: keyword } && keyword@ == name@,
        node.children@.len() == 0,
        node.executor is None,
        node.requirement is None,
{
    CommandNode::new(NodeType::Literal { name: String::from_str(name) })
}

/// A node that matches what `consumer` accepts and keeps the value under `name`.
pub fn argument<E>(name: &str, consumer: ArgumentConsumer) -> (node: CommandNode<E>)
    ensures
        node.node_type matches NodeType::Argument { name: key, consumer: parser } && key@ == name@ && parser
            == consumer,
        node.children@.len() == 0,
        node.executor is None,
        node.requirement is None,
{
    CommandNode::new(NodeType::Argument { name: String::from_str(name), consumer })
}

} // verus!
