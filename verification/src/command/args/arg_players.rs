//! Consumes one token as a target selector and resolves it to players.

use vstd::prelude::*;
use crate::command::args::{Arg, ArgValue, ConsumedArgs};
use crate::command::tokenizer::token_views;
use crate::command::{CommandError, CommandSender, ExecutorFailure, ParseFailure, SenderKind};
use crate::server::Server;
use crate::text::spells;

verus! {

/// The positions below `n` of the names that equal `token`, ascending.
pub open spec fn named(names: Seq<Seq<char>>, token: Seq<char>, n: int) -> Seq<usize>
    decreases n,
{
    if n <= 0 {
        Seq::empty()
    } else if names[n - 1] == token {
        named(names, token, n - 1).push((n - 1) as usize)
    } else {
        named(names, token, n - 1)
    }
}

/// The positions `0, 1, .., n - 1`.
pub open spec fn everyone(n: nat) -> Seq<usize> {
    Seq::new(n, |i: int| i as usize)
}

/// A selection that holds nobody is a failure.
pub open spec fn non_empty(found: Seq<usize>) -> Result<Seq<usize>, ParseFailure> {
    if found.len() == 0 {
        Err(ParseFailure::NoMatchingTargets)
    } else {
        Ok(found)
    }
}

/// The players that a selector token denotes among those called `names`:
/// `@a` is everybody, `@s` is the sender if a player who is online, any other
/// token that starts with `@` is malformed, and every other token is a name.
pub open spec fn resolve(token: Seq<char>, sender: CommandSender, names: Seq<Seq<char>>) -> Result<
    Seq<usize>,
    ParseFailure,
> {
    if token.len() > 0 && token[0] == '@' {
        if token == seq!['@', 'a'] {
            non_empty(everyone(names.len()))
        } else if token == seq!['@', 's'] {
            match sender.kind {
                SenderKind::Player(position) => if position < names.len() {
                    Ok(seq![position])
                } else {
                    Err(ParseFailure::NoMatchingTargets)
                },
                _ => Err(ParseFailure::NoMatchingTargets),
            }
        } else {
            Err(ParseFailure::InvalidSelectorSyntax)
        }
    } else {
        non_empty(named(names, token, names.len() as int))
    }
}

/// The positions found for a name are positions below `n`, in ascending order.
pub proof fn lemma_named_ascends(names: Seq<Seq<char>>, token: Seq<char>, n: int)
    requires
        0 <= n <= names.len() <= usize::MAX,
    ensures
        forall|i: int| 0 <= i < named(names, token, n).len() ==> #[trigger] named(names, token, n)[i] < n,
        forall|i: int, j: int|
            0 <= i < j < named(names, token, n).len() ==> named(names, token, n)[i] < named(names, token, n)[j],
        forall|i: int|
            0 <= i < named(names, token, n).len() ==> names[#[trigger] named(names, token, n)[i] as int]
                == token,
    decreases n,
{
    if n > 0 {
        lemma_named_ascends(names, token, n - 1);
        let sooner = named(names, token, n - 1);
        let found = named(names, token, n);
        if names[n - 1] == token {
            assert(found == sooner.push((n - 1) as usize));
            assert forall|i: int| 0 <= i < found.len() implies #[trigger] found[i] < n && names[found[i] as int]
                == token by {
                if i < sooner.len() {
                    assert(found[i] == sooner[i]);
                }
            }
            assert forall|i: int, j: int| 0 <= i < j < found.len() implies found[i] < found[j] by {
                assert(found[i] == sooner[i]);
                if j < sooner.len() {
                    assert(found[j] == sooner[j]);
                }
            }
        } else {
            assert(found == sooner);
        }
    }
}

/// Whatever a selector resolves to is never empty, names only players who
/// are online, each once, and lists them in the order of the server's list.
pub proof fn lemma_targets_are_online_players(token: Seq<char>, sender: CommandSender, names: Seq<Seq<char>>)
    requires
        names.len() <= usize::MAX,
    ensures
        resolve(token, sender, names) matches Ok(found) ==> {
            &&& found.len() > 0
            &&& forall|i: int| 0 <= i < found.len() ==> #[trigger] found[i] < names.len()
            &&& forall|i: int, j: int| 0 <= i < j < found.len() ==> found[i] < found[j]
        },
{
    lemma_named_ascends(names, token, names.len() as int);
}

/// Resolves a player name or a selector expression against the players who
/// are online when it is called.
#[derive(Clone, Copy, Debug, PartialEq, Eq, Structural)]
pub struct PlayersArgumentConsumer;

impl PlayersArgumentConsumer {
    /// What the consumer makes of the token at `cursor`; it uses exactly one.
    pub open spec fn consume(
        self,
        tokens: Seq<Seq<char>>,
        cursor: int,
        sender: CommandSender,
        names: Seq<Seq<char>>,
    ) -> Result<(Seq<usize>, int), ParseFailure> {
        if 0 <= cursor < tokens.len() {
            match resolve(tokens[cursor], sender, names) {
                Ok(targets) => Ok((targets, cursor + 1)),
                Err(failure) => Err(failure),
            }
        } else {
            Err(ParseFailure::InvalidSelectorSyntax)
        }
    }

    /// Resolves one selector token. The result is never empty: a selector
    /// that selects nobody fails.
    pub fn resolve_token(token: &Vec<char>, sender: &CommandSender, server: &Server) -> (targets: Result<
        Vec<usize>,
        ParseFailure,
    >)
        ensures
            match resolve(token@, *sender, server.names()) {
                Ok(found) => targets matches Ok(list) && list@ == found && found.len() > 0,
                Err(failure) => targets == Err::<Vec<usize>, ParseFailure>(failure),
            },
    {
        let count = server.player_count();
        let mut found: Vec<usize> = Vec::new();
        if token.len() > 0 && token[0] == '@' {
            proof {
                reveal_strlit("@a");
                reveal_strlit("@s");
                assert("@a"@ =~= seq!['@', 'a']);
                assert("@s"@ =~= seq!['@', 's']);
            }
            if spells(token, "@a") {
                let mut i: usize = 0;
                while i < count
                    invariant
                        i <= count,
                        found@ == everyone(i as nat),
                    decreases count - i,
                {
                    found.push(i);
                    assert(found@ =~= everyone((i + 1) as nat));
                    i += 1;
                }
            } else if spells(token, "@s") {
                match sender.kind {
                    SenderKind::Player(position) => {
                        if position < count {
                            found.push(position);
                            assert(found@ =~= seq![position]);
                        }
                    },
                    _ => {},
                }
            } else {
                return Err(ParseFailure::InvalidSelectorSyntax);
            }
        } else {
            let mut i: usize = 0;
            while i < count
                invariant
                    i <= count,
                    count == server.players@.len(),
                    found@ == named(server.names(), token@, i as int),
                decreases count - i,
            {
                if spells(token, server.players[i].gameprofile.name.as_str()) {
                    found.push(i);
                }
                i += 1;
            }
        }
        if found.len() == 0 {
            Err(ParseFailure::NoMatchingTargets)
        } else {
            Ok(found)
        }
    }

    /// Resolves the token at `cursor` and moves the cursor behind it.
    pub fn try_consume(
        &self,
        tokens: &Vec<Vec<char>>,
        cursor: usize,
        sender: &CommandSender,
        server: &Server,
    ) -> (parsed: Result<(Vec<usize>, usize), ParseFailure>)
        ensures
            match self.consume(token_views(tokens@), cursor as int, *sender, server.names()) {
                Ok((found, next)) => parsed matches Ok((list, after)) && list@ == found && after == next
                    && found.len() > 0,
                Err(failure) => parsed == Err::<(Vec<usize>, usize), ParseFailure>(failure),
            },
    {
        if cursor >= tokens.len() {
            return Err(ParseFailure::InvalidSelectorSyntax);
        }
        match PlayersArgumentConsumer::resolve_token(&tokens[cursor], sender, server) {
            Ok(targets) => Ok((targets, cursor + 1)),
            Err(failure) => Err(failure),
        }
    }

    /// The targets that an executor finds under `name`; a missing argument or
    /// one of another type is a failure of the executor.
    pub fn find_arg<'a>(args: &'a ConsumedArgs, name: &str) -> (found: Result<&'a Vec<usize>, CommandError>)
        ensures
            match found {
                Ok(targets) => args@.contains_key(name@) && args@[name@] == ArgValue::Players(targets@),
                Err(error) => error == CommandError::ExecutorFailure(ExecutorFailure::InvalidConsumption) && !(
                args@.contains_key(name@) && args@[name@] is Players),
            },
    {
        match args.get(name) {
            Some(Arg::Players(targets)) => Ok(targets),
            _ => Err(CommandError::ExecutorFailure(ExecutorFailure::InvalidConsumption)),
        }
    }
}

} // verus!
