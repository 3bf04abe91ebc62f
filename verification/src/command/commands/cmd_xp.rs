//! The `xp` command: adds, sets or queries the experience of players.
//!
//! `xp add <targets> <amount> [levels|points]`,
//! `xp set <targets> <amount> [levels|points]` and
//! `xp query <targets> [levels|points]`; without a unit, points are meant.

use vstd::prelude::*;
use vstd::string::StringExecFns;
use crate::command::args::arg_bounded_num::BoundedNumArgumentConsumer;
use crate::command::args::arg_players::PlayersArgumentConsumer;
use crate::command::args::{ArgValue, ArgumentConsumer, ConsumedArgs};
use crate::command::tree::{CommandNode, CommandTree, NodeType};
use crate::command::tree_builder::{argument, literal};
use crate::command::{CommandError, CommandExecutor, CommandSender, ExecutorFailure};
use crate::number::{decimal_text, push_decimal};
use crate::server::Server;

verus! {

pub const DESCRIPTION: &'static str = "Adds, sets or queries player experience";

/// How many experience points make one level.
pub const XP_PER_LEVEL: i32 = 17;

pub const ARG_TARGET: &'static str = "targets";

pub const ARG_AMOUNT: &'static str = "amount";

/// The name of the unit in messages.
pub open spec fn unit_text(is_levels: bool) -> Seq<char> {
    if is_levels {
        "levels"@
    } else {
        "points"@
    }
}

/// The points that `amount` stands for in the given unit.
pub open spec fn points_for(amount: int, is_levels: bool) -> int {
    if is_levels {
        amount * XP_PER_LEVEL
    } else {
        amount
    }
}

/// The whole levels that `points` make, rounded towards zero.
pub open spec fn whole_levels(points: int) -> int {
    if points >= 0 {
        points / (XP_PER_LEVEL as int)
    } else {
        -((-points) / (XP_PER_LEVEL as int))
    }
}

/// The number reported for `points` in the given unit.
pub open spec fn shown(points: int, is_levels: bool) -> int {
    if is_levels {
        whole_levels(points)
    } else {
        points
    }
}

/// The message after experience was added.
pub open spec fn added_text(amount: int, is_levels: bool) -> Seq<char> {
    "Added "@ + decimal_text(amount) + " "@ + unit_text(is_levels) + " of experience"@
}

/// The message after experience was set.
pub open spec fn set_text(amount: int, is_levels: bool) -> Seq<char> {
    "Set experience to "@ + decimal_text(amount) + " "@ + unit_text(is_levels)
}

/// The message that reports a player's experience.
pub open spec fn query_text(name: Seq<char>, points: int, is_levels: bool) -> Seq<char> {
    name + " has "@ + decimal_text(shown(points, is_levels)) + " "@ + unit_text(is_levels) + " of experience"@
}

/// The experience of all players after each of `targets` in turn got `points`
/// more; a target who is not online or whose counter would overflow fails.
pub open spec fn after_adding(experiences: Seq<i32>, targets: Seq<usize>, points: int) -> Result<
    Seq<i32>,
    ExecutorFailure,
>
    decreases targets.len(),
{
    if targets.len() == 0 {
        Ok(experiences)
    } else {
        let target = targets[0] as int;
        if target >= experiences.len() {
            Err(ExecutorFailure::UnknownPlayer)
        } else if !(i32::MIN <= experiences[target] + points <= i32::MAX) {
            Err(ExecutorFailure::ExperienceOverflow)
        } else {
            after_adding(
                experiences.update(target, (experiences[target] + points) as i32),
                targets.drop_first(),
                points,
            )
        }
    }
}

/// Whether every target is the position of a player among `count`.
pub open spec fn all_online(targets: Seq<usize>, count: nat) -> bool {
    forall|i: int| 0 <= i < targets.len() ==> #[trigger] targets[i] < count
}

/// The experience of all players after each of `targets` was set to `points`.
pub open spec fn after_setting(experiences: Seq<i32>, targets: Seq<usize>, points: i32) -> Seq<i32> {
    Seq::new(
        experiences.len(),
        |position: int|
            if targets.contains(position as usize) {
                points
            } else {
                experiences[position]
            },
    )
}

/// The players that the arguments name as targets.
pub open spec fn targets_in(args: Map<Seq<char>, ArgValue>) -> Option<Seq<usize>> {
    if args.contains_key(ARG_TARGET@) && args[ARG_TARGET@] is Players {
        Some(args[ARG_TARGET@]->Players_0)
    } else {
        None
    }
}

/// The amount that the arguments name.
pub open spec fn amount_in(args: Map<Seq<char>, ArgValue>) -> Option<i32> {
    if args.contains_key(ARG_AMOUNT@) && args[ARG_AMOUNT@] is Num {
        Some(args[ARG_AMOUNT@]->Num_0)
    } else {
        None
    }
}

/// `count` copies of `text`.
pub open spec fn repeated(text: Seq<char>, count: nat) -> Seq<Seq<char>> {
    Seq::new(count, |i: int| text)
}

/// What a run changes: the experience of all players afterwards, and the
/// messages for the sender.
pub struct Effect {
    pub experiences: Seq<i32>,
    pub messages: Seq<Seq<char>>,
}

/// Whether a run from `sender` and `server` to `sender_after` and
/// `server_after` with `result` is the one that `plan` describes: a failed
/// plan changes nothing, a plan that succeeds changes exactly what it says.
pub open spec fn carried_out(
    plan: Result<Effect, ExecutorFailure>,
    sender: CommandSender,
    server: Server,
    sender_after: CommandSender,
    server_after: Server,
    result: Result<(), CommandError>,
) -> bool {
    match plan {
        Err(failure) => {
            &&& result == Err::<(), CommandError>(CommandError::ExecutorFailure(failure))
            &&& sender_after == sender
            &&& server_after == server
        },
        Ok(effect) => {
            &&& result == Ok::<(), CommandError>(())
            &&& server_after.names() == server.names()
            &&& server_after.experiences() == effect.experiences
            &&& sender_after.kind == sender.kind
            &&& sender_after.permission_level == sender.permission_level
            &&& sender_after.outbox() == sender.outbox() + effect.messages
        },
    }
}

/// Tells the sender that `amount` of experience was added.
pub fn notify_xp_change(sender: &mut CommandSender, amount: i32, is_levels: bool)
    ensures
        final(sender).kind == old(sender).kind,
        final(sender).permission_level == old(sender).permission_level,
        final(sender).outbox() == old(sender).outbox().push(added_text(amount as int, is_levels)),
{
    let unit = if is_levels {
        "levels"
    } else {
        "points"
    };
    let mut message = String::from_str("Added ");
    push_decimal(&mut message, amount);
    message.append(" ");
    message.append(unit);
    message.append(" of experience");
    sender.send_message(message);
}

/// Tells the sender that experience was set to `amount`.
pub fn notify_xp_set(sender: &mut CommandSender, amount: i32, is_levels: bool)
    ensures
        final(sender).kind == old(sender).kind,
        final(sender).permission_level == old(sender).permission_level,
        final(sender).outbox() == old(sender).outbox().push(set_text(amount as int, is_levels)),
{
    let unit = if is_levels {
        "levels"
    } else {
        "points"
    };
    let mut message = String::from_str("Set experience to ");
    push_decimal(&mut message, amount);
    message.append(" ");
    message.append(unit);
    sender.send_message(message);
}

/// The points that `amount` stands for, if they fit a counter.
pub fn to_points(amount: i32, is_levels: bool) -> (points: Option<i32>)
    ensures
        match points {
            Some(p) => p == points_for(amount as int, is_levels),
            None => !(i32::MIN <= points_for(amount as int, is_levels) <= i32::MAX),
        },
{
    if is_levels {
        amount.checked_mul(XP_PER_LEVEL)
    } else {
        Some(amount)
    }
}

/// Whether every target is a player who is online.
pub fn targets_online(targets: &Vec<usize>, server: &Server) -> (online: bool)
    ensures
        online == all_online(targets@, server.players@.len()),
{
    let count = server.player_count();
    let mut i: usize = 0;
    while i < targets.len()
        invariant
            i <= targets@.len(),
            count == server.players@.len(),
            forall|j: int| 0 <= j < i ==> #[trigger] targets@[j] < count,
        decreases targets@.len() - i,
    {
        if targets[i] >= count {
            return false;
        }
        i += 1;
    }
    true
}

/// Adds experience to the targets; `true` counts the amount in levels.
#[derive(Clone, Copy, Debug, PartialEq, Eq, Structural)]
pub struct XpAddExecutor(pub bool);

impl XpAddExecutor {
    /// What adding does with the given arguments and experience.
    pub open spec fn plan(self, args: Map<Seq<char>, ArgValue>, experiences: Seq<i32>) -> Result<
        Effect,
        ExecutorFailure,
    > {
        match (targets_in(args), amount_in(args)) {
            (Some(targets), Some(amount)) => {
                let points = points_for(amount as int, self.0);
                if !(i32::MIN <= points <= i32::MAX) {
                    Err(ExecutorFailure::ExperienceOverflow)
                } else {
                    match after_adding(experiences, targets, points) {
                        Ok(after) => Ok(
                            Effect {
                                experiences: after,
                                messages: repeated(added_text(amount as int, self.0), targets.len()),
                            },
                        ),
                        Err(failure) => Err(failure),
                    }
                }
            },
            _ => Err(ExecutorFailure::InvalidConsumption),
        }
    }
}

impl CommandExecutor for XpAddExecutor {
    open spec fn outcome(
        &self,
        sender: CommandSender,
        server: Server,
        args: Map<Seq<char>, ArgValue>,
        sender_after: CommandSender,
        server_after: Server,
        result: Result<(), CommandError>,
    ) -> bool {
        carried_out(self.plan(args, server.experiences()), sender, server, sender_after, server_after, result)
    }

    /// Gives every target the amount, in the executor's unit, and tells the
    /// sender once per target. Nothing changes unless every target can take
    /// the points.
    fn execute(&self, sender: &mut CommandSender, server: &mut Server, args: &ConsumedArgs) -> (result: Result<
        (),
        CommandError,
    >) {
        let targets = match PlayersArgumentConsumer::find_arg(args, ARG_TARGET) {
            Ok(targets) => targets,
            Err(error) => {
                return Err(error);
            },
        };
        let amount = match BoundedNumArgumentConsumer::find_arg(args, ARG_AMOUNT) {
            Ok(amount) => amount,
            Err(error) => {
                return Err(error);
            },
        };
        let points = match to_points(amount, self.0) {
            Some(points) => points,
            None => {
                return Err(CommandError::ExecutorFailure(ExecutorFailure::ExperienceOverflow));
            },
        };
        let mut scratch = server.experience_list();
        let mut i: usize = 0;
        assert(targets@.skip(0) == targets@);
        while i < targets.len()
            invariant
                i <= targets@.len(),
                *sender == *old(sender),
                *server == *old(server),
                targets_in(args@) == Some(targets@),
                amount_in(args@) == Some(amount),
                points == points_for(amount as int, self.0),
                scratch@.len() == server.players@.len(),
                after_adding(scratch@, targets@.skip(i as int), points as int) == after_adding(
                    server.experiences(),
                    targets@,
                    points as int,
                ),
            decreases targets@.len() - i,
        {
            let target = targets[i];
            assert(targets@.skip(i as int).drop_first() == targets@.skip(i + 1));
            assert(targets@.skip(i as int)[0] == target);
            if target >= scratch.len() {
                return Err(CommandError::ExecutorFailure(ExecutorFailure::UnknownPlayer));
            }
            match scratch[target].checked_add(points) {
                Some(sum) => {
                    scratch.set(target, sum);
                },
                None => {
                    return Err(CommandError::ExecutorFailure(ExecutorFailure::ExperienceOverflow));
                },
            }
            i += 1;
        }
        let ghost planned = scratch@;
        let mut k: usize = 0;
        while k < targets.len()
            invariant
                k <= targets@.len(),
                server.names() == old(server).names(),
                after_adding(server.experiences(), targets@.skip(k as int), points as int) == Ok::<
                    Seq<i32>,
                    ExecutorFailure,
                >(planned),
                *sender == *old(sender),
            decreases targets@.len() - k,
        {
            let target = targets[k];
            assert(targets@.skip(k as int).drop_first() == targets@.skip(k + 1));
            assert(targets@.skip(k as int)[0] == target);
            server.add_experience_to(target, points);
            k += 1;
        }
        let mut n: usize = 0;
        while n < targets.len()
            invariant
                n <= targets@.len(),
                sender.kind == old(sender).kind,
                sender.permission_level == old(sender).permission_level,
                sender.outbox() == old(sender).outbox() + repeated(added_text(amount as int, self.0), n as nat),
            decreases targets@.len() - n,
        {
            notify_xp_change(sender, amount, self.0);
            assert(repeated(added_text(amount as int, self.0), (n + 1) as nat) == repeated(
                added_text(amount as int, self.0),
                n as nat,
            ).push(added_text(amount as int, self.0)));
            n += 1;
        }
        Ok(())
    }
}

/// Sets the experience of the targets; `true` counts the amount in levels.
#[derive(Clone, Copy, Debug, PartialEq, Eq, Structural)]
pub struct XpSetExecutor(pub bool);

impl XpSetExecutor {
    /// What setting does with the given arguments and experience.
    pub open spec fn plan(self, args: Map<Seq<char>, ArgValue>, experiences: Seq<i32>) -> Result<
        Effect,
        ExecutorFailure,
    > {
        match (targets_in(args), amount_in(args)) {
            (Some(targets), Some(amount)) => {
                let points = points_for(amount as int, self.0);
                if !(i32::MIN <= points <= i32::MAX) {
                    Err(ExecutorFailure::ExperienceOverflow)
                } else if !all_online(targets, experiences.len()) {
                    Err(ExecutorFailure::UnknownPlayer)
                } else {
                    Ok(
                        Effect {
                            experiences: after_setting(experiences, targets, points as i32),
                            messages: repeated(set_text(amount as int, self.0), targets.len()),
                        },
                    )
                }
            },
            _ => Err(ExecutorFailure::InvalidConsumption),
        }
    }
}

impl CommandExecutor for XpSetExecutor {
    open spec fn outcome(
        &self,
        sender: CommandSender,
        server: Server,
        args: Map<Seq<char>, ArgValue>,
        sender_after: CommandSender,
        server_after: Server,
        result: Result<(), CommandError>,
    ) -> bool {
        carried_out(self.plan(args, server.experiences()), sender, server, sender_after, server_after, result)
    }

    /// Sets every target to the amount, in the executor's unit, and tells the
    /// sender once per target. Nothing changes unless every target is online.
    fn execute(&self, sender: &mut CommandSender, server: &mut Server, args: &ConsumedArgs) -> (result: Result<
        (),
        CommandError,
    >) {
        let targets = match PlayersArgumentConsumer::find_arg(args, ARG_TARGET) {
            Ok(targets) => targets,
            Err(error) => {
                return Err(error);
            },
        };
        let amount = match BoundedNumArgumentConsumer::find_arg(args, ARG_AMOUNT) {
            Ok(amount) => amount,
            Err(error) => {
                return Err(error);
            },
        };
        let points = match to_points(amount, self.0) {
            Some(points) => points,
            None => {
                return Err(CommandError::ExecutorFailure(ExecutorFailure::ExperienceOverflow));
            },
        };
        if !targets_online(targets, server) {
            return Err(CommandError::ExecutorFailure(ExecutorFailure::UnknownPlayer));
        }
        let ghost before = server.experiences();
        let count = server.player_count();
        let mut k: usize = 0;
        assert(server.experiences() =~= after_setting(before, targets@.take(0), points));
        while k < targets.len()
            invariant
                k <= targets@.len(),
                count == before.len(),
                all_online(targets@, before.len()),
                before.len() == server.players@.len(),
                server.names() == old(server).names(),
                server.experiences() == after_setting(before, targets@.take(k as int), points),
            decreases targets@.len() - k,
        {
            let target = targets[k];
            server.set_experience_of(target, points);
            proof {
                let sooner = targets@.take(k as int);
                let later = targets@.take(k + 1);
                assert(later == sooner.push(target));
                assert forall|i: int| 0 <= i < before.len() implies #[trigger] server.experiences()[i]
                    == after_setting(before, later, points)[i] by {
                    let p = i as usize;
                    if sooner.contains(p) {
                        let h = choose|h: int| 0 <= h < sooner.len() && sooner[h] == p;
                        assert(later[h] == p);
                    }
                    if p == target {
                        assert(later[k as int] == p);
                    }
                    if later.contains(p) && p != target {
                        let h = choose|h: int| 0 <= h < later.len() && later[h] == p;
                        assert(sooner[h] == p);
                    }
                }
                assert(server.experiences() =~= after_setting(before, later, points));
            }
            k += 1;
        }
        assert(targets@.take(targets@.len() as int) == targets@);
        let mut n: usize = 0;
        while n < targets.len()
            invariant
                n <= targets@.len(),
                sender.kind == old(sender).kind,
                sender.permission_level == old(sender).permission_level,
                sender.outbox() == old(sender).outbox() + repeated(set_text(amount as int, self.0), n as nat),
            decreases targets@.len() - n,
        {
            notify_xp_set(sender, amount, self.0);
            assert(repeated(set_text(amount as int, self.0), (n + 1) as nat) == repeated(
                set_text(amount as int, self.0),
                n as nat,
            ).push(set_text(amount as int, self.0)));
            n += 1;
        }
        Ok(())
    }
}

/// The whole levels that `points` make, rounded towards zero.
pub fn levels_of(points: i32) -> (levels: i32)
    ensures
        levels == whole_levels(points as int),
{
    if points >= 0 {
        points / XP_PER_LEVEL
    } else {
        let magnitude: i64 = -(points as i64);
        let levels: i64 = magnitude / 17;
        (-levels) as i32
    }
}

/// The reports on `targets`, one per target, in their order.
pub open spec fn reports(names: Seq<Seq<char>>, experiences: Seq<i32>, targets: Seq<usize>, is_levels: bool) -> Seq<
    Seq<char>,
> {
    Seq::new(
        targets.len(),
        |i: int| query_text(names[targets[i] as int], experiences[targets[i] as int] as int, is_levels),
    )
}

/// Reports the experience of the targets; `true` reports whole levels.
#[derive(Clone, Copy, Debug, PartialEq, Eq, Structural)]
pub struct XpQueryExecutor(pub bool);

impl XpQueryExecutor {
    /// What a query does with the given arguments, names and experience.
    pub open spec fn plan(
        self,
        args: Map<Seq<char>, ArgValue>,
        names: Seq<Seq<char>>,
        experiences: Seq<i32>,
    ) -> Result<Effect, ExecutorFailure> {
        match targets_in(args) {
            Some(targets) => if !all_online(targets, experiences.len()) {
                Err(ExecutorFailure::UnknownPlayer)
            } else {
                Ok(Effect { experiences, messages: reports(names, experiences, targets, self.0) })
            },
            None => Err(ExecutorFailure::InvalidConsumption),
        }
    }
}

impl CommandExecutor for XpQueryExecutor {
    open spec fn outcome(
        &self,
        sender: CommandSender,
        server: Server,
        args: Map<Seq<char>, ArgValue>,
        sender_after: CommandSender,
        server_after: Server,
        result: Result<(), CommandError>,
    ) -> bool {
        &&& carried_out(
            self.plan(args, server.names(), server.experiences()),
            sender,
            server,
            sender_after,
            server_after,
            result,
        )
        &&& server_after == server
    }

    /// Tells the sender the experience of every target, in the executor's
    /// unit. The server is left as it is.
    fn execute(&self, sender: &mut CommandSender, server: &mut Server, args: &ConsumedArgs) -> (result: Result<
        (),
        CommandError,
    >) {
        let targets = match PlayersArgumentConsumer::find_arg(args, ARG_TARGET) {
            Ok(targets) => targets,
            Err(error) => {
                return Err(error);
            },
        };
        if !targets_online(targets, server) {
            return Err(CommandError::ExecutorFailure(ExecutorFailure::UnknownPlayer));
        }
        let unit = if self.0 {
            "levels"
        } else {
            "points"
        };
        let mut n: usize = 0;
        while n < targets.len()
            invariant
                n <= targets@.len(),
                *server == *old(server),
                all_online(targets@, server.players@.len()),
                unit@ == unit_text(self.0),
                sender.kind == old(sender).kind,
                sender.permission_level == old(sender).permission_level,
                sender.outbox() == old(sender).outbox() + reports(
                    server.names(),
                    server.experiences(),
                    targets@.take(n as int),
                    self.0,
                ),
            decreases targets@.len() - n,
        {
            let target = &server.players[targets[n]];
            let points = target.get_experience();
            let xp = if self.0 {
                levels_of(points)
            } else {
                points
            };
            let mut message = String::from_str(target.gameprofile.name.as_str());
            message.append(" has ");
            push_decimal(&mut message, xp);
            message.append(" ");
            message.append(unit);
            message.append(" of experience");
            sender.send_message(message);
            proof {
                let sooner = reports(server.names(), server.experiences(), targets@.take(n as int), self.0);
                let later = reports(server.names(), server.experiences(), targets@.take(n + 1), self.0);
                assert(later =~= sooner.push(
                    query_text(server.names()[targets@[n as int] as int], points as int, self.0),
                ));
            }
            n += 1;
        }
        assert(targets@.take(targets@.len() as int) == targets@);
        Ok(())
    }
}

/// The executors of the `xp` command.
#[derive(Clone, Copy, Debug, PartialEq, Eq, Structural)]
pub enum XpExecutor {
    AddXp(XpAddExecutor),
    SetXp(XpSetExecutor),
    QueryXp(XpQueryExecutor),
}

impl CommandExecutor for XpExecutor {
    open spec fn outcome(
        &self,
        sender: CommandSender,
        server: Server,
        args: Map<Seq<char>, ArgValue>,
        sender_after: CommandSender,
        server_after: Server,
        result: Result<(), CommandError>,
    ) -> bool {
        match self {
            XpExecutor::AddXp(executor) => executor.outcome(sender, server, args, sender_after, server_after, result),
            XpExecutor::SetXp(executor) => executor.outcome(sender, server, args, sender_after, server_after, result),
            XpExecutor::QueryXp(executor) => executor.outcome(
                sender,
                server,
                args,
                sender_after,
                server_after,
                result,
            ),
        }
    }

    fn execute(&self, sender: &mut CommandSender, server: &mut Server, args: &ConsumedArgs) -> (result: Result<
        (),
        CommandError,
    >) {
        match self {
            XpExecutor::AddXp(executor) => executor.execute(sender, server, args),
            XpExecutor::SetXp(executor) => executor.execute(sender, server, args),
            XpExecutor::QueryXp(executor) => executor.execute(sender, server, args),
        }
    }
}

/// A keyword node named `word` that ends a command with `executor`.
pub open spec fn is_unit_leaf(node: CommandNode<XpExecutor>, word: Seq<char>, executor: XpExecutor) -> bool {
    &&& node.node_type is Literal
    &&& node.name() == word
    &&& node.children@.len() == 0
    &&& node.executor == Some(executor)
    &&& node.requirement is None
}

/// A node after which the unit may follow: `levels` runs `in_levels`,
/// `points` or nothing runs `in_points`.
pub open spec fn offers_units(node: CommandNode<XpExecutor>, in_levels: XpExecutor, in_points: XpExecutor) -> bool {
    &&& node.children@.len() == 2
    &&& is_unit_leaf(node.children@[0], "levels"@, in_levels)
    &&& is_unit_leaf(node.children@[1], "points"@, in_points)
    &&& node.executor == Some(in_points)
    &&& node.requirement is None
}

/// An argument node that takes any `i32` as the amount.
pub open spec fn is_amount(node: CommandNode<XpExecutor>) -> bool {
    node.node_type matches NodeType::Argument { name, consumer } && name@ == ARG_AMOUNT@ && consumer
        == ArgumentConsumer::BoundedNum(BoundedNumArgumentConsumer { min_inclusive: None, max_inclusive: None })
}

/// An argument node that takes a target selector.
pub open spec fn is_targets(node: CommandNode<XpExecutor>) -> bool {
    node.node_type matches NodeType::Argument { name, consumer } && name@ == ARG_TARGET@ && consumer
        == ArgumentConsumer::Players(PlayersArgumentConsumer)
}

/// A node that only leads on to its single child.
pub open spec fn leads_on(node: CommandNode<XpExecutor>) -> bool {
    &&& node.children@.len() == 1
    &&& node.executor is None
    &&& node.requirement is None
}

/// The branch `word <targets> <amount> [levels|points]`.
pub open spec fn is_amount_branch(
    node: CommandNode<XpExecutor>,
    word: Seq<char>,
    in_levels: XpExecutor,
    in_points: XpExecutor,
) -> bool {
    &&& node.node_type is Literal
    &&& node.name() == word
    &&& leads_on(node)
    &&& is_targets(node.children@[0])
    &&& leads_on(node.children@[0])
    &&& is_amount(node.children@[0].children@[0])
    &&& offers_units(node.children@[0].children@[0], in_levels, in_points)
}

/// The branch `query <targets> [levels|points]`.
pub open spec fn is_query_branch(node: CommandNode<XpExecutor>) -> bool {
    &&& node.node_type is Literal
    &&& node.name() == "query"@
    &&& leads_on(node)
    &&& is_targets(node.children@[0])
    &&& offers_units(
        node.children@[0],
        XpExecutor::QueryXp(XpQueryExecutor(true)),
        XpExecutor::QueryXp(XpQueryExecutor(false)),
    )
}

/// The shape of the `xp` command.
pub open spec fn is_xp_tree(tree: CommandTree<XpExecutor>) -> bool {
    &&& tree.aliases() == seq!["xp"@, "experience"@]
    &&& tree.description@ == DESCRIPTION@
    &&& tree.children@.len() == 3
    &&& is_amount_branch(
        tree.children@[0],
        "add"@,
        XpExecutor::AddXp(XpAddExecutor(true)),
        XpExecutor::AddXp(XpAddExecutor(false)),
    )
    &&& is_amount_branch(
        tree.children@[1],
        "set"@,
        XpExecutor::SetXp(XpSetExecutor(true)),
        XpExecutor::SetXp(XpSetExecutor(false)),
    )
    &&& is_query_branch(tree.children@[2])
}

/// Builds the tree of the `xp` command, also known as `experience`.
pub fn init_command_tree() -> (tree: CommandTree<XpExecutor>)
    ensures
        tree.wf(),
        is_xp_tree(tree),
{
    let names = ["xp", "experience"];
    proof {
        reveal_strlit("xp");
        reveal_strlit("experience");
        assert(names@[0]@.len() == 2);
        assert(names@[1]@.len() == 10);
    }
    let tree = CommandTree::new(names.as_slice(), DESCRIPTION).with_child(
        literal("add").with_child(
            argument(ARG_TARGET, ArgumentConsumer::Players(PlayersArgumentConsumer)).with_child(
                argument(ARG_AMOUNT, ArgumentConsumer::BoundedNum(BoundedNumArgumentConsumer::new()))
                    .with_child(literal("levels").execute(XpExecutor::AddXp(XpAddExecutor(true))))
                    .with_child(literal("points").execute(XpExecutor::AddXp(XpAddExecutor(false))))
                    .execute(XpExecutor::AddXp(XpAddExecutor(false))),
            ),
        ),
    ).with_child(
        literal("set").with_child(
            argument(ARG_TARGET, ArgumentConsumer::Players(PlayersArgumentConsumer)).with_child(
                argument(ARG_AMOUNT, ArgumentConsumer::BoundedNum(BoundedNumArgumentConsumer::new()))
                    .with_child(literal("levels").execute(XpExecutor::SetXp(XpSetExecutor(true))))
                    .with_child(literal("points").execute(XpExecutor::SetXp(XpSetExecutor(false))))
                    .execute(XpExecutor::SetXp(XpSetExecutor(false))),
            ),
        ),
    ).with_child(
        literal("query").with_child(
            argument(ARG_TARGET, ArgumentConsumer::Players(PlayersArgumentConsumer))
                .with_child(literal("levels").execute(XpExecutor::QueryXp(XpQueryExecutor(true))))
                .with_child(literal("points").execute(XpExecutor::QueryXp(XpQueryExecutor(false))))
                .execute(XpExecutor::QueryXp(XpQueryExecutor(false))),
        ),
    );
    assert(tree.aliases() =~= seq!["xp"@, "experience"@]);
    tree
}

} // verus!
