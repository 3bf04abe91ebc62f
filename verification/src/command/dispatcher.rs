//! Matching a tokenized line against command trees.
//!
//! The walk starts below the alias and takes one child per step. At each node
//! a keyword child that spells the next token wins; only if there is none are
//! the argument children tried, in the order in which they were declared, and
//! the first whose consumer succeeds is taken for good. The walk ends where
//! the input ends or where no child takes the next token.

use vstd::prelude::*;
use crate::command::args::{Arg, ArgValue, ConsumedArgs};
use crate::command::tokenizer::{token_views, tokenize, tokens_of};
use crate::command::tree::{CommandNode, CommandTree, NodeType};
use crate::command::{CommandError, CommandExecutor, CommandSender, ParseFailure};
use crate::server::Server;
use crate::text::spells;

verus! {

/// The least position from `from` on whose item is `wanted`.
pub open spec fn first_where<T>(items: Seq<T>, wanted: spec_fn(T) -> bool, from: int) -> Option<int>
    decreases items.len() - from,
{
    if from < 0 || from >= items.len() {
        None
    } else if wanted(items[from]) {
        Some(from)
    } else {
        first_where(items, wanted, from + 1)
    }
}

/// `first_where` finds a wanted item that no wanted item precedes, and finds
/// none only where there is none.
pub proof fn lemma_first_where<T>(items: Seq<T>, wanted: spec_fn(T) -> bool, from: int)
    requires
        0 <= from <= items.len(),
    ensures
        match first_where(items, wanted, from) {
            Some(i) => {
                &&& from <= i < items.len()
                &&& wanted(items[i])
                &&& forall|j: int| from <= j < i ==> !wanted(#[trigger] items[j])
            },
            None => forall|j: int| from <= j < items.len() ==> !wanted(#[trigger] items[j]),
        },
    decreases items.len() - from,
{
    if from < items.len() && !wanted(items[from]) {
        lemma_first_where(items, wanted, from + 1);
    }
}

/// A wanted item that no wanted item precedes is the one `first_where` finds.
pub proof fn lemma_first_where_is<T>(items: Seq<T>, wanted: spec_fn(T) -> bool, i: int)
    requires
        0 <= i < items.len(),
        wanted(items[i]),
        forall|j: int| 0 <= j < i ==> !wanted(#[trigger] items[j]),
    ensures
        first_where(items, wanted, 0) == Some(i),
{
    lemma_first_where(items, wanted, 0);
}

/// How a child answers when the walk offers it the next token.
pub enum Offer {
    /// The child is of the other kind or, as a keyword, spells another word.
    Pass,
    /// The child would be tried but is closed to the sender.
    Closed,
    /// The child's consumer was tried and rejected the input.
    Failed(ParseFailure),
    /// The keyword child spells the token.
    Keyword,
    /// The argument child's consumer produced `value`, to be kept under
    /// `name`, and left the cursor at `next`.
    Bound { name: Seq<char>, value: ArgValue, next: int },
}

/// The answer of `node` as a keyword to `token`.
pub open spec fn keyword_offer<E>(node: CommandNode<E>, token: Seq<char>, sender: CommandSender) -> Offer {
    match node.node_type {
        NodeType::Literal { name } => if name@ != token {
            Offer::Pass
        } else if node.permits(sender) {
            Offer::Keyword
        } else {
            Offer::Closed
        },
        NodeType::Argument { .. } => Offer::Pass,
    }
}

/// The answer of `node` as an argument to the tokens at `cursor`. The
/// consumer of a closed node is not run.
pub open spec fn argument_offer<E>(
    node: CommandNode<E>,
    tokens: Seq<Seq<char>>,
    cursor: int,
    sender: CommandSender,
    names: Seq<Seq<char>>,
) -> Offer {
    match node.node_type {
        NodeType::Literal { .. } => Offer::Pass,
        NodeType::Argument { name, consumer } => if !node.permits(sender) {
            Offer::Closed
        } else {
            match consumer.consume(tokens, cursor, sender, names) {
                Ok((value, next)) => Offer::Bound { name: name@, value, next },
                Err(failure) => Offer::Failed(failure),
            }
        },
    }
}

/// The children that take `token` as their keyword.
pub open spec fn takes_keyword<E>(token: Seq<char>, sender: CommandSender) -> spec_fn(CommandNode<E>) -> bool {
    |c: CommandNode<E>| keyword_offer(c, token, sender) is Keyword
}

/// The children whose consumer accepts the tokens at `cursor`.
pub open spec fn takes_argument<E>(
    tokens: Seq<Seq<char>>,
    cursor: int,
    sender: CommandSender,
    names: Seq<Seq<char>>,
) -> spec_fn(CommandNode<E>) -> bool {
    |c: CommandNode<E>| argument_offer(c, tokens, cursor, sender, names) is Bound
}

/// The children whose consumer rejects the tokens at `cursor`.
pub open spec fn fails_argument<E>(
    tokens: Seq<Seq<char>>,
    cursor: int,
    sender: CommandSender,
    names: Seq<Seq<char>>,
) -> spec_fn(CommandNode<E>) -> bool {
    |c: CommandNode<E>| argument_offer(c, tokens, cursor, sender, names) is Failed
}

/// Whether some child that could have taken the token is closed to the sender.
pub open spec fn some_closed<E>(
    children: Seq<CommandNode<E>>,
    tokens: Seq<Seq<char>>,
    cursor: int,
    sender: CommandSender,
    names: Seq<Seq<char>>,
) -> bool {
    exists|i: int|
        0 <= i < children.len() && (keyword_offer(#[trigger] children[i], tokens[cursor], sender) is Closed
            || argument_offer(children[i], tokens, cursor, sender, names) is Closed)
}

/// The error reported where no child takes the token at `cursor`: a closed
/// branch comes first, then the failure of the first consumer that was tried,
/// and a usage error where nothing was tried at all.
pub open spec fn rejection<E>(
    children: Seq<CommandNode<E>>,
    tokens: Seq<Seq<char>>,
    cursor: int,
    sender: CommandSender,
    names: Seq<Seq<char>>,
) -> CommandError {
    if some_closed(children, tokens, cursor, sender, names) {
        CommandError::PermissionDenied
    } else {
        match first_where(children, fails_argument(tokens, cursor, sender, names), 0) {
            Some(i) => CommandError::ArgumentParseError(
                argument_offer(children[i], tokens, cursor, sender, names)->Failed_0,
            ),
            None => CommandError::UsageError { depth: cursor as usize },
        }
    }
}

/// What the walk does with the token at `cursor`.
pub enum Selection {
    /// It goes to this keyword child.
    Keyword { child: int },
    /// It goes to this argument child.
    Argument { child: int },
    /// It stops with this error.
    Rejected(CommandError),
}

/// The choice among `children` for the token at `cursor`: the first open
/// keyword child that spells it, else the first open argument child whose
/// consumer accepts it.
pub open spec fn select<E>(
    children: Seq<CommandNode<E>>,
    tokens: Seq<Seq<char>>,
    cursor: int,
    sender: CommandSender,
    names: Seq<Seq<char>>,
) -> Selection {
    match first_where(children, takes_keyword(tokens[cursor], sender), 0) {
        Some(child) => Selection::Keyword { child },
        None => match first_where(children, takes_argument(tokens, cursor, sender, names), 0) {
            Some(child) => Selection::Argument { child },
            None => Selection::Rejected(rejection(children, tokens, cursor, sender, names)),
        },
    }
}

/// Where a walk ends.
pub struct Landing<E> {
    /// The child positions taken from the root down to the last node reached.
    pub path: Seq<int>,
    /// The executor of the last node reached.
    pub executor: Option<E>,
    /// How many tokens were matched.
    pub cursor: int,
    /// The values of the argument nodes on the path, by name.
    pub args: Map<Seq<char>, ArgValue>,
    /// The error, where the walk stopped before the end of the input.
    pub rejection: Option<CommandError>,
}

/// The walk from a node with the given children and executor, reached by
/// `path` with `cursor` tokens matched and `args` bound.
pub open spec fn descend<E>(
    children: Seq<CommandNode<E>>,
    executor: Option<E>,
    tokens: Seq<Seq<char>>,
    cursor: int,
    args: Map<Seq<char>, ArgValue>,
    path: Seq<int>,
    sender: CommandSender,
    names: Seq<Seq<char>>,
) -> Landing<E>
    decreases tokens.len() - cursor,
    via descend_decreases::<E>
{
    if cursor < 0 || cursor >= tokens.len() {
        Landing { path, executor, cursor, args, rejection: None }
    } else {
        match select(children, tokens, cursor, sender, names) {
            Selection::Keyword { child } => descend(
                children[child].children@,
                children[child].executor,
                tokens,
                cursor + 1,
                args,
                path.push(child),
                sender,
                names,
            ),
            Selection::Argument { child } => {
                let offer = argument_offer(children[child], tokens, cursor, sender, names);
                descend(
                    children[child].children@,
                    children[child].executor,
                    tokens,
                    offer->next,
                    args.insert(offer->name, offer->value),
                    path.push(child),
                    sender,
                    names,
                )
            },
            Selection::Rejected(error) => Landing { path, executor, cursor, args, rejection: Some(error) },
        }
    }
}

#[via_fn]
proof fn descend_decreases<E>(
    children: Seq<CommandNode<E>>,
    executor: Option<E>,
    tokens: Seq<Seq<char>>,
    cursor: int,
    args: Map<Seq<char>, ArgValue>,
    path: Seq<int>,
    sender: CommandSender,
    names: Seq<Seq<char>>,
) {
    if 0 <= cursor < tokens.len() {
        lemma_first_where(children, takes_argument(tokens, cursor, sender, names), 0);
    }
}

/// An executor with the arguments parsed for it.
pub struct Resolved<E> {
    pub executor: E,
    pub args: Map<Seq<char>, ArgValue>,
}

/// What a walk amounts to: its error if it stopped early, the executor of the
/// node where the input ended, or a usage error where that node has none.
pub open spec fn resolution<E>(landing: Landing<E>) -> Result<Resolved<E>, CommandError> {
    match landing.rejection {
        Some(error) => Err(error),
        None => match landing.executor {
            Some(executor) => Ok(Resolved { executor, args: landing.args }),
            None => Err(CommandError::UsageError { depth: landing.cursor as usize }),
        },
    }
}

/// The walk through `tree` for `tokens`, whose first token is the alias.
pub open spec fn landing_in<E>(
    tree: CommandTree<E>,
    tokens: Seq<Seq<char>>,
    sender: CommandSender,
    names: Seq<Seq<char>>,
) -> Landing<E> {
    descend(tree.children@, None, tokens, 1, Map::empty(), Seq::empty(), sender, names)
}

/// The trees that answer to `token`.
pub open spec fn answering<E>(token: Seq<char>) -> spec_fn(CommandTree<E>) -> bool {
    |t: CommandTree<E>| t.answers_to(token)
}

/// What `line` resolves to among `trees`: the first tree that answers to the
/// first token is walked with the tokens that follow.
pub open spec fn resolve_line<E>(
    trees: Seq<CommandTree<E>>,
    line: Seq<char>,
    sender: CommandSender,
    names: Seq<Seq<char>>,
) -> Result<Resolved<E>, CommandError> {
    let tokens = tokens_of(line);
    if tokens.len() == 0 {
        Err(CommandError::UnknownCommand)
    } else {
        match first_where(trees, answering::<E>(tokens[0]), 0) {
            Some(i) => resolution(landing_in(trees[i], tokens, sender, names)),
            None => Err(CommandError::UnknownCommand),
        }
    }
}

/// The child that takes the next token, with the value parsed if it is an
/// argument.
pub(crate) enum Chosen {
    Keyword { child: usize },
    Argument { child: usize, value: Arg, next: usize },
}

/// Offers the token at `cursor` to `children`.
pub(crate) fn select_child<E>(
    children: &Vec<CommandNode<E>>,
    tokens: &Vec<Vec<char>>,
    cursor: usize,
    sender: &CommandSender,
    server: &Server,
) -> (chosen: Result<Chosen, CommandError>)
    requires
        cursor < tokens@.len(),
    ensures
        match select(children@, token_views(tokens@), cursor as int, *sender, server.names()) {
            Selection::Keyword { child } => {
                &&& chosen matches Ok(Chosen::Keyword { child: c })
                &&& c == child
                &&& 0 <= child < children@.len()
            },
            Selection::Argument { child } => {
                &&& chosen matches Ok(Chosen::Argument { child: c, value, next })
                &&& c == child
                &&& 0 <= child < children@.len()
                &&& argument_offer(
                    children@[child],
                    token_views(tokens@),
                    cursor as int,
                    *sender,
                    server.names(),
                ) == (Offer::Bound { name: children@[child].name(), value: value@, next: next as int })
                &&& cursor < next <= tokens@.len()
            },
            Selection::Rejected(error) => chosen matches Err(e) && e == error,
        },
{
    let ghost words = token_views(tokens@);
    let ghost names = server.names();
    let ghost is_keyword = takes_keyword::<E>(words[cursor as int], *sender);
    let ghost is_bound = takes_argument::<E>(words, cursor as int, *sender, names);
    let ghost is_failed = fails_argument::<E>(words, cursor as int, *sender, names);
    let token = &tokens[cursor];
    let mut closed = false;
    let mut i: usize = 0;
    while i < children.len()
        invariant
            i <= children@.len(),
            cursor < tokens@.len(),
            words == token_views(tokens@),
            names == server.names(),
            token@ == words[cursor as int],
            forall|j: int| 0 <= j < i ==> !is_keyword(#[trigger] children@[j]),
            closed <==> exists|j: int|
                0 <= j < i && keyword_offer(#[trigger] children@[j], words[cursor as int], *sender) is Closed,
            is_keyword == takes_keyword::<E>(words[cursor as int], *sender),
        decreases children@.len() - i,
    {
        let child = &children[i];
        match &child.node_type {
            NodeType::Literal { name } => {
                if spells(token, name.as_str()) {
                    if child.is_open_to(sender) {
                        proof {
                            lemma_first_where_is(children@, is_keyword, i as int);
                        }
                        return Ok(Chosen::Keyword { child: i });
                    }
                    closed = true;
                }
            },
            NodeType::Argument { .. } => {},
        }
        i += 1;
    }
    proof {
        lemma_first_where(children@, is_keyword, 0);
    }
    let mut failure: Option<ParseFailure> = None;
    let ghost closed_keywords = closed;
    let mut k: usize = 0;
    while k < children.len()
        invariant
            k <= children@.len(),
            cursor < tokens@.len(),
            words == token_views(tokens@),
            names == server.names(),
            forall|j: int| 0 <= j < k ==> !is_bound(#[trigger] children@[j]),
            closed <==> closed_keywords || exists|j: int|
                0 <= j < k && argument_offer(#[trigger] children@[j], words, cursor as int, *sender, names) is Closed,
            match failure {
                Some(f) => exists|j: int|
                    {
                        &&& 0 <= j < k
                        &&& argument_offer(#[trigger] children@[j], words, cursor as int, *sender, names)
                            == Offer::Failed(f)
                        &&& forall|h: int| 0 <= h < j ==> !is_failed(#[trigger] children@[h])
                    },
                None => forall|j: int| 0 <= j < k ==> !is_failed(#[trigger] children@[j]),
            },
            first_where(children@, takes_keyword::<E>(words[cursor as int], *sender), 0) is None,
            is_bound == takes_argument::<E>(words, cursor as int, *sender, names),
            is_failed == fails_argument::<E>(words, cursor as int, *sender, names),
        decreases children@.len() - k,
    {
        let child = &children[k];
        match &child.node_type {
            NodeType::Literal { .. } => {},
            NodeType::Argument { consumer, .. } => {
                if !child.is_open_to(sender) {
                    closed = true;
                } else {
                    match consumer.try_consume(tokens, cursor, sender, server) {
                        Ok((value, next)) => {
                            proof {
                                lemma_first_where_is(children@, is_bound, k as int);
                            }
                            return Ok(Chosen::Argument { child: k, value, next });
                        },
                        Err(f) => {
                            if failure.is_none() {
                                failure = Some(f);
                            }
                        },
                    }
                }
            },
        }
        k += 1;
    }
    proof {
        lemma_first_where(children@, is_bound, 0);
        lemma_first_where(children@, is_failed, 0);
        assert(closed == some_closed(children@, words, cursor as int, *sender, names));
    }
    if closed {
        Err(CommandError::PermissionDenied)
    } else {
        match failure {
            Some(f) => Err(CommandError::ArgumentParseError(f)),
            None => Err(CommandError::UsageError { depth: cursor }),
        }
    }
}

/// The children below `node`, or below the root of `tree` where there is no node yet.
pub open spec fn children_below<E>(tree: CommandTree<E>, node: Option<&CommandNode<E>>) -> Seq<CommandNode<E>> {
    match node {
        Some(reached) => reached.children@,
        None => tree.children@,
    }
}

/// The executor of `node`; the root of a tree has none.
pub open spec fn executor_at<E>(node: Option<&CommandNode<E>>) -> Option<E> {
    match node {
        Some(reached) => reached.executor,
        None => None,
    }
}

/// Walks `tree` with `tokens`, of which the first is the alias that led to
/// the tree. Returns the executor of the node where the input ends, with the
/// arguments parsed on the way, or the error of the walk.
pub fn walk<'a, E>(tree: &'a CommandTree<E>, tokens: &Vec<Vec<char>>, sender: &CommandSender, server: &Server) -> (found:
    Result<(&'a E, ConsumedArgs), CommandError>)
    ensures
        match resolution(landing_in(*tree, token_views(tokens@), *sender, server.names())) {
            Ok(resolved) => found matches Ok((executor, args)) && *executor == resolved.executor && args@
                == resolved.args,
            Err(error) => found matches Err(e) && e == error,
        },
{
    let ghost words = token_views(tokens@);
    let ghost names = server.names();
    let ghost mut path: Seq<int> = Seq::empty();
    let mut node: Option<&'a CommandNode<E>> = None;
    let mut args = ConsumedArgs::new();
    let mut cursor: usize = 1;
    while cursor < tokens.len()
        invariant
            words == token_views(tokens@),
            names == server.names(),
            descend(
                children_below(*tree, node),
                executor_at(node),
                words,
                cursor as int,
                args@,
                path,
                *sender,
                names,
            ) == landing_in(*tree, words, *sender, names),
        decreases tokens@.len() - cursor,
    {
        let children: &'a Vec<CommandNode<E>> = match node {
            Some(reached) => &reached.children,
            None => &tree.children,
        };
        match select_child(children, tokens, cursor, sender, server) {
            Err(error) => {
                return Err(error);
            },
            Ok(Chosen::Keyword { child }) => {
                node = Some(&children[child]);
                cursor += 1;
                proof {
                    path = path.push(child as int);
                }
            },
            Ok(Chosen::Argument { child, value, next }) => {
                let reached = &children[child];
                args.insert(reached.name_str(), value);
                node = Some(reached);
                cursor = next;
                proof {
                    path = path.push(child as int);
                }
            },
        }
    }
    match node {
        Some(reached) => match &reached.executor {
            Some(executor) => Ok((executor, args)),
            None => Err(CommandError::UsageError { depth: cursor }),
        },
        None => Err(CommandError::UsageError { depth: cursor }),
    }
}

/// The command trees of a server, in the order in which they were registered.
#[derive(Debug)]
pub struct CommandDispatcher<E> {
    pub commands: Vec<CommandTree<E>>,
}

impl<E> CommandDispatcher<E> {
    /// A dispatcher that knows no command.
    pub fn new() -> (dispatcher: CommandDispatcher<E>)
        ensures
            dispatcher.commands@.len() == 0,
    {
        CommandDispatcher { commands: Vec::new() }
    }

    /// Adds `tree` behind the trees registered so far.
    pub fn register(&mut self, tree: CommandTree<E>)
        ensures
            final(self).commands@ == old(self).commands@.push(tree),
    {
        self.commands.push(tree);
    }

    /// The first registered tree that answers to `token`.
    pub fn find_tree(&self, token: &Vec<char>) -> (position: Option<usize>)
        ensures
            match position {
                Some(i) => first_where(self.commands@, answering::<E>(token@), 0) == Some(i as int) && i
                    < self.commands@.len(),
                None => first_where(self.commands@, answering::<E>(token@), 0) is None,
            },
    {
        let mut i: usize = 0;
        while i < self.commands.len()
            invariant
                i <= self.commands@.len(),
                forall|j: int| 0 <= j < i ==> !answering::<E>(token@)(#[trigger] self.commands@[j]),
            decreases self.commands@.len() - i,
        {
            if self.commands[i].has_alias(token) {
                proof {
                    lemma_first_where_is(self.commands@, answering::<E>(token@), i as int);
                }
                return Some(i);
            }
            i += 1;
        }
        proof {
            lemma_first_where(self.commands@, answering::<E>(token@), 0);
        }
        None
    }

    /// Finds what `raw_line` asks for without running it: the executor bound
    /// to the node that the line leads to, and the arguments parsed for it.
    /// Players are looked up in `server` as it is now.
    pub fn resolve<'a>(&'a self, raw_line: &str, sender: &CommandSender, server: &Server) -> (found: Result<
        (&'a E, ConsumedArgs),
        CommandError,
    >)
        ensures
            match resolve_line(self.commands@, raw_line@, *sender, server.names()) {
                Ok(resolved) => found matches Ok((executor, args)) && *executor == resolved.executor && args@
                    == resolved.args,
                Err(error) => found matches Err(e) && e == error,
            },
    {
        let tokens = tokenize(raw_line);
        if tokens.len() == 0 {
            return Err(CommandError::UnknownCommand);
        }
        assert(token_views(tokens@)[0] == tokens@[0]@);
        match self.find_tree(&tokens[0]) {
            Some(i) => walk(&self.commands[i], &tokens, sender, server),
            None => Err(CommandError::UnknownCommand),
        }
    }
}

impl<E: CommandExecutor> CommandDispatcher<E> {
    /// Runs `raw_line`: resolves it and, if that succeeds, runs the executor
    /// once. A line that does not resolve changes nothing and reports the
    /// error of the walk; otherwise the outcome is the executor's.
    pub fn dispatch(&self, raw_line: &str, sender: &mut CommandSender, server: &mut Server) -> (result: Result<
        (),
        CommandError,
    >)
        ensures
            match resolve_line(self.commands@, raw_line@, *old(sender), old(server).names()) {
                Ok(resolved) => resolved.executor.outcome(
                    *old(sender),
                    *old(server),
                    resolved.args,
                    *final(sender),
                    *final(server),
                    result,
                ),
                Err(error) => {
                    &&& result == Err::<(), CommandError>(error)
                    &&& *final(sender) == *old(sender)
                    &&& *final(server) == *old(server)
                },
            },
    {
        match self.resolve(raw_line, sender, server) {
            Ok((executor, args)) => executor.execute(sender, server, &args),
            Err(error) => Err(error),
        }
    }
}

/// Whether the keywords along `path`, each the first open child of its
/// parent to spell its token, spell the tokens from `cursor` to the end.
pub open spec fn keyword_path<E>(
    children: Seq<CommandNode<E>>,
    tokens: Seq<Seq<char>>,
    cursor: int,
    path: Seq<int>,
    sender: CommandSender,
) -> bool
    decreases path.len(),
{
    if path.len() == 0 {
        cursor == tokens.len()
    } else {
        let child = path[0];
        &&& 0 <= cursor < tokens.len()
        &&& 0 <= child < children.len()
        &&& takes_keyword::<E>(tokens[cursor], sender)(children[child])
        &&& forall|j: int| 0 <= j < child ==> !takes_keyword::<E>(tokens[cursor], sender)(#[trigger] children[j])
        &&& keyword_path(children[child].children@, tokens, cursor + 1, path.drop_first(), sender)
    }
}

/// The executor of the node that `path` leads to; `executor` where the path
/// is empty.
pub open spec fn executor_along<E>(children: Seq<CommandNode<E>>, executor: Option<E>, path: Seq<int>) -> Option<E>
    decreases path.len(),
{
    if path.len() == 0 {
        executor
    } else {
        executor_along(children[path[0]].children@, children[path[0]].executor, path.drop_first())
    }
}

/// Input that consists of keywords only leads to exactly the node that the
/// keywords spell: the walk takes the children of `path` in turn, matches
/// every token, binds no argument and reports no error.
pub proof fn lemma_keywords_lead_to_their_node<E>(
    children: Seq<CommandNode<E>>,
    executor: Option<E>,
    tokens: Seq<Seq<char>>,
    cursor: int,
    args: Map<Seq<char>, ArgValue>,
    taken: Seq<int>,
    path: Seq<int>,
    sender: CommandSender,
    names: Seq<Seq<char>>,
)
    requires
        keyword_path(children, tokens, cursor, path, sender),
    ensures
        descend(children, executor, tokens, cursor, args, taken, sender, names) == (Landing {
            path: taken + path,
            executor: executor_along(children, executor, path),
            cursor: tokens.len() as int,
            args,
            rejection: None,
        }),
    decreases path.len(),
{
    if path.len() == 0 {
        assert(taken + path == taken);
    } else {
        let child = path[0];
        lemma_first_where_is(children, takes_keyword::<E>(tokens[cursor], sender), child);
        lemma_keywords_lead_to_their_node(
            children[child].children@,
            children[child].executor,
            tokens,
            cursor + 1,
            args,
            taken.push(child),
            path.drop_first(),
            sender,
            names,
        );
        assert(taken.push(child) + path.drop_first() == taken + path);
    }
}

/// A line of keywords below an alias reaches the node whose path spells it:
/// the walk through the tree ends at that node with every token matched, no
/// argument bound and no error, so that the node's executor runs if it has one.
pub proof fn lemma_keyword_line_reaches_its_node<E>(
    tree: CommandTree<E>,
    tokens: Seq<Seq<char>>,
    path: Seq<int>,
    sender: CommandSender,
    names: Seq<Seq<char>>,
)
    requires
        keyword_path(tree.children@, tokens, 1, path, sender),
    ensures
        landing_in(tree, tokens, sender, names) == (Landing {
            path,
            executor: executor_along(tree.children@, None, path),
            cursor: tokens.len() as int,
            args: Map::empty(),
            rejection: None,
        }),
{
    lemma_keywords_lead_to_their_node(
        tree.children@,
        None,
        tokens,
        1,
        Map::empty(),
        Seq::empty(),
        path,
        sender,
        names,
    );
    assert(Seq::<int>::empty() + path == path);
}

/// A keyword child that spells the token and is open to the sender is taken
/// whatever argument children stand beside it, before it or behind it: the
/// walk goes to the first such keyword and runs no consumer.
pub proof fn lemma_keyword_outranks_arguments<E>(
    children: Seq<CommandNode<E>>,
    tokens: Seq<Seq<char>>,
    cursor: int,
    sender: CommandSender,
    names: Seq<Seq<char>>,
    keyword: int,
)
    requires
        0 <= cursor < tokens.len(),
        0 <= keyword < children.len(),
        keyword_offer(children[keyword], tokens[cursor], sender) is Keyword,
    ensures
        select(children, tokens, cursor, sender, names) matches Selection::Keyword { child } && 0 <= child
            <= keyword && keyword_offer(children[child], tokens[cursor], sender) is Keyword,
{
    lemma_first_where(children, takes_keyword::<E>(tokens[cursor], sender), 0);
}

/// The rank of keywords over arguments does not depend on the order of the
/// siblings: however the children are rearranged, the walk takes a keyword
/// child that spells the token.
pub proof fn lemma_keyword_wins_in_every_order<E>(
    children: Seq<CommandNode<E>>,
    reordered: Seq<CommandNode<E>>,
    tokens: Seq<Seq<char>>,
    cursor: int,
    sender: CommandSender,
    names: Seq<Seq<char>>,
    keyword: int,
)
    requires
        0 <= cursor < tokens.len(),
        0 <= keyword < children.len(),
        keyword_offer(children[keyword], tokens[cursor], sender) is Keyword,
        reordered.to_multiset() == children.to_multiset(),
    ensures
        select(reordered, tokens, cursor, sender, names) matches Selection::Keyword { child } && 0 <= child
            < reordered.len() && keyword_offer(reordered[child], tokens[cursor], sender) is Keyword,
{
    children.to_multiset_ensures();
    reordered.to_multiset_ensures();
    assert(children.contains(children[keyword]));
    assert(children.to_multiset().count(children[keyword]) > 0);
    assert(reordered.to_multiset().count(children[keyword]) > 0);
    assert(reordered.contains(children[keyword]));
    let position = choose|i: int| 0 <= i < reordered.len() && reordered[i] == children[keyword];
    lemma_keyword_outranks_arguments(reordered, tokens, cursor, sender, names, position);
}

/// The names of the argument nodes on `path`.
pub open spec fn arguments_along<E>(children: Seq<CommandNode<E>>, path: Seq<int>) -> Set<Seq<char>>
    decreases path.len(),
{
    if path.len() == 0 {
        Set::empty()
    } else {
        let node = children[path[0]];
        let below = arguments_along(node.children@, path.drop_first());
        if node.node_type is Argument {
            below.insert(node.name())
        } else {
            below
        }
    }
}

/// A walk only goes down from where it starts, and binds a value under the
/// name of each argument node that it enters and under no other name.
pub proof fn lemma_walk_binds_the_arguments_entered<E>(
    children: Seq<CommandNode<E>>,
    executor: Option<E>,
    tokens: Seq<Seq<char>>,
    cursor: int,
    args: Map<Seq<char>, ArgValue>,
    taken: Seq<int>,
    sender: CommandSender,
    names: Seq<Seq<char>>,
)
    ensures
        ({
            let landing = descend(children, executor, tokens, cursor, args, taken, sender, names);
            let entered = landing.path.skip(taken.len() as int);
            &&& taken.len() <= landing.path.len()
            &&& landing.path.take(taken.len() as int) == taken
            &&& landing.args.dom() == args.dom().union(arguments_along(children, entered))
        }),
    decreases tokens.len() - cursor,
{
    let landing = descend(children, executor, tokens, cursor, args, taken, sender, names);
    let entered = landing.path.skip(taken.len() as int);
    if cursor < 0 || cursor >= tokens.len() {
        assert(landing.path.take(taken.len() as int) == taken);
        assert(landing.args.dom() =~= args.dom().union(arguments_along(children, entered)));
    } else {
        match select(children, tokens, cursor, sender, names) {
            Selection::Keyword { child } => {
                lemma_first_where(children, takes_keyword::<E>(tokens[cursor], sender), 0);
                let longer = taken.push(child);
                lemma_walk_binds_the_arguments_entered(
                    children[child].children@,
                    children[child].executor,
                    tokens,
                    cursor + 1,
                    args,
                    longer,
                    sender,
                    names,
                );
                assert(landing.path.take(longer.len() as int)[taken.len() as int] == child);
                assert(landing.path.take(taken.len() as int) == longer.drop_last());
                assert(entered[0] == child);
                assert(entered.drop_first() == landing.path.skip(longer.len() as int));
            },
            Selection::Argument { child } => {
                lemma_first_where(children, takes_keyword::<E>(tokens[cursor], sender), 0);
                lemma_first_where(children, takes_argument::<E>(tokens, cursor, sender, names), 0);
                let offer = argument_offer(children[child], tokens, cursor, sender, names);
                let longer = taken.push(child);
                lemma_walk_binds_the_arguments_entered(
                    children[child].children@,
                    children[child].executor,
                    tokens,
                    offer->next,
                    args.insert(offer->name, offer->value),
                    longer,
                    sender,
                    names,
                );
                assert(landing.path.take(longer.len() as int)[taken.len() as int] == child);
                assert(landing.path.take(taken.len() as int) == longer.drop_last());
                assert(entered[0] == child);
                assert(entered.drop_first() == landing.path.skip(longer.len() as int));
                assert(landing.args.dom() =~= args.dom().union(arguments_along(children, entered)));
            },
            Selection::Rejected(error) => {
                assert(landing.path.take(taken.len() as int) == taken);
                assert(landing.args.dom() =~= args.dom().union(arguments_along(children, entered)));
            },
        }
    }
}

/// The arguments handed to an executor are keyed by exactly the names of the
/// argument nodes on the path that led to it.
pub proof fn lemma_args_name_the_arguments_passed<E>(
    tree: CommandTree<E>,
    tokens: Seq<Seq<char>>,
    sender: CommandSender,
    names: Seq<Seq<char>>,
)
    ensures
        landing_in(tree, tokens, sender, names).args.dom() == arguments_along(
            tree.children@,
            landing_in(tree, tokens, sender, names).path,
        ),
{
    lemma_walk_binds_the_arguments_entered(
        tree.children@,
        None,
        tokens,
        1,
        Map::empty(),
        Seq::empty(),
        sender,
        names,
    );
    let landing = landing_in(tree, tokens, sender, names);
    assert(landing.path.skip(0) == landing.path);
    assert(landing.args.dom() =~= arguments_along(tree.children@, landing.path));
}

} // verus!
