use pumpkin::command::args::arg_bounded_num::BoundedNumArgumentConsumer;
use pumpkin::command::args::arg_players::PlayersArgumentConsumer;
use pumpkin::command::args::{Arg, ArgumentConsumer, ConsumedArgs};
use pumpkin::command::commands::cmd_xp::{
    init_command_tree, levels_of, notify_xp_change, notify_xp_set, targets_online, to_points, XpAddExecutor,
    XpExecutor, XpQueryExecutor, XpSetExecutor, ARG_AMOUNT, ARG_TARGET, DESCRIPTION, XP_PER_LEVEL,
};
use pumpkin::command::dispatcher::CommandDispatcher;
use pumpkin::command::tree::CommandTree;
use pumpkin::command::tree_builder::{argument, literal};
use pumpkin::command::{
    CommandError, CommandExecutor, CommandSender, ExecutorFailure, ParseFailure, SenderKind,
};
use pumpkin::entity::player::Player;
use pumpkin::server::Server;

fn xp_dispatcher() -> CommandDispatcher<XpExecutor> {
    let mut dispatcher = CommandDispatcher::new();
    dispatcher.register(init_command_tree());
    dispatcher
}

/// The `set` branch of the command with amounts of at least zero.
fn floored_set_dispatcher() -> CommandDispatcher<XpExecutor> {
    let amount = ArgumentConsumer::BoundedNum(BoundedNumArgumentConsumer::new().min(0));
    let mut dispatcher = CommandDispatcher::new();
    dispatcher.register(
        CommandTree::new(&["xp", "experience"], DESCRIPTION).with_child(
            literal("set").with_child(
                argument(ARG_TARGET, ArgumentConsumer::Players(PlayersArgumentConsumer)).with_child(
                    argument(ARG_AMOUNT, amount)
                        .with_child(literal("levels").execute(XpExecutor::SetXp(XpSetExecutor(true))))
                        .with_child(literal("points").execute(XpExecutor::SetXp(XpSetExecutor(false))))
                        .execute(XpExecutor::SetXp(XpSetExecutor(false))),
                ),
            ),
        ),
    );
    dispatcher
}

fn server_with(players: &[(&str, i32)]) -> Server {
    let mut server = Server::new();
    for (name, experience) in players {
        server.add_player(Player::new(name, *experience));
    }
    server
}

fn console() -> CommandSender {
    CommandSender::new(SenderKind::Console, 4)
}

fn run(line: &str, server: &mut Server) -> (Result<(), CommandError>, Vec<String>) {
    let mut sender = console();
    let result = xp_dispatcher().dispatch(line, &mut sender, server);
    (result, sender.messages)
}

#[test]
fn a_level_is_seventeen_points() {
    assert_eq!(XP_PER_LEVEL, 17);
    assert_eq!(to_points(5, true), Some(85));
    assert_eq!(to_points(5, false), Some(5));
    assert_eq!(to_points(-2, true), Some(-34));
    assert_eq!(to_points(i32::MAX, false), Some(i32::MAX));
    assert_eq!(to_points(126322568, true), None);
    assert_eq!(to_points(126322567, true), Some(2147483639));
}

#[test]
fn whole_levels_round_towards_zero() {
    assert_eq!(levels_of(0), 0);
    assert_eq!(levels_of(16), 0);
    assert_eq!(levels_of(17), 1);
    assert_eq!(levels_of(42), 2);
    assert_eq!(levels_of(-16), 0);
    assert_eq!(levels_of(-17), -1);
    assert_eq!(levels_of(-42), -2);
    assert_eq!(levels_of(i32::MAX), 126322567);
    assert_eq!(levels_of(i32::MIN), -126322567);
}

#[test]
fn xp_tree_has_its_aliases_and_branches() {
    let tree = init_command_tree();
    assert_eq!(tree.names, vec![String::from("xp"), String::from("experience")]);
    assert_eq!(tree.description, "Adds, sets or queries player experience");
    let branches: Vec<&str> = tree.children.iter().map(|c| c.name_str()).collect();
    assert_eq!(branches, vec!["add", "set", "query"]);
    for branch in &tree.children[..2] {
        assert_eq!(branch.children.len(), 1);
        let targets = &branch.children[0];
        assert_eq!(targets.name_str(), "targets");
        assert!(targets.executor.is_none());
        let amount = &targets.children[0];
        assert_eq!(amount.name_str(), "amount");
        assert!(amount.executor.is_some());
        let units: Vec<&str> = amount.children.iter().map(|c| c.name_str()).collect();
        assert_eq!(units, vec!["levels", "points"]);
    }
    let query_targets = &tree.children[2].children[0];
    assert!(query_targets.executor.is_some());
    assert_eq!(query_targets.children.len(), 2);
}

#[test]
fn add_five_levels_adds_eighty_five_points() {
    let mut server = server_with(&[("Alex", 3), ("Steve", 10)]);
    let (result, messages) = run("xp add Steve 5 levels", &mut server);
    assert_eq!(result, Ok(()));
    assert_eq!(server.players[1].get_experience(), 10 + 85);
    assert_eq!(server.players[0].get_experience(), 3);
    assert_eq!(messages, vec![String::from("Added 5 levels of experience")]);
    assert!(messages[0].contains("5 levels"));
}

#[test]
fn add_without_unit_counts_points() {
    let mut server = server_with(&[("Steve", 10)]);
    let (result, messages) = run("xp add Steve 5", &mut server);
    assert_eq!(result, Ok(()));
    assert_eq!(server.players[0].get_experience(), 15);
    assert_eq!(messages, vec![String::from("Added 5 points of experience")]);
    let (result, messages) = run("xp add Steve 5 points", &mut server);
    assert_eq!(result, Ok(()));
    assert_eq!(server.players[0].get_experience(), 20);
    assert_eq!(messages, vec![String::from("Added 5 points of experience")]);
}

#[test]
fn add_to_everyone_reports_once_per_target() {
    let mut server = server_with(&[("Alex", 3), ("Steve", 10), ("Kai", -4)]);
    let (result, messages) = run("experience add @a -2 levels", &mut server);
    assert_eq!(result, Ok(()));
    assert_eq!(server.experience_list(), vec![3 - 34, 10 - 34, -4 - 34]);
    assert_eq!(messages, vec![String::from("Added -2 levels of experience"); 3]);
}

#[test]
fn query_reports_points_verbatim() {
    let mut server = server_with(&[("Steve", 42)]);
    let (result, messages) = run("xp query Steve points", &mut server);
    assert_eq!(result, Ok(()));
    assert_eq!(messages, vec![String::from("Steve has 42 points of experience")]);
    assert!(messages[0].contains("42 points"));
    assert_eq!(server.players[0].get_experience(), 42);
}

#[test]
fn query_reports_whole_levels() {
    let mut server = server_with(&[("Steve", 42), ("Alex", -20)]);
    let (result, messages) = run("xp query @a levels", &mut server);
    assert_eq!(result, Ok(()));
    assert_eq!(
        messages,
        vec![String::from("Steve has 2 levels of experience"), String::from("Alex has -1 levels of experience")]
    );
}

#[test]
fn query_without_unit_reports_points() {
    let mut server = server_with(&[("Steve", 42)]);
    let (result, messages) = run("xp query Steve", &mut server);
    assert_eq!(result, Ok(()));
    assert_eq!(messages, vec![String::from("Steve has 42 points of experience")]);
}

#[test]
fn set_replaces_the_experience() {
    let mut server = server_with(&[("Alex", 3), ("Steve", 10)]);
    let (result, messages) = run("xp set Steve 3 levels", &mut server);
    assert_eq!(result, Ok(()));
    assert_eq!(server.experience_list(), vec![3, 51]);
    assert_eq!(messages, vec![String::from("Set experience to 3 levels")]);
    let (result, messages) = run("xp set @a -10", &mut server);
    assert_eq!(result, Ok(()));
    assert_eq!(server.experience_list(), vec![-10, -10]);
    assert_eq!(messages, vec![String::from("Set experience to -10 points"); 2]);
}

#[test]
fn set_below_the_lower_bound_is_out_of_range_and_changes_nothing() {
    let mut server = server_with(&[("Steve", 42)]);
    let mut sender = console();
    let result = floored_set_dispatcher().dispatch("xp set Steve -10 points", &mut sender, &mut server);
    assert_eq!(result, Err(CommandError::ArgumentParseError(ParseFailure::OutOfRange)));
    assert_eq!(server.players[0].get_experience(), 42);
    assert_eq!(server.players[0].gameprofile.name, "Steve");
    assert!(sender.messages.is_empty());
}

#[test]
fn set_at_the_lower_bound_is_accepted() {
    let mut server = server_with(&[("Steve", 42)]);
    let mut sender = console();
    let result = floored_set_dispatcher().dispatch("xp set Steve 0 points", &mut sender, &mut server);
    assert_eq!(result, Ok(()));
    assert_eq!(server.players[0].get_experience(), 0);
    assert_eq!(sender.messages, vec![String::from("Set experience to 0 points")]);
}

#[test]
fn selector_without_targets_fails_before_any_executor_runs() {
    let mut server = Server::new();
    for line in ["xp add @a 5 levels", "xp set @a 5", "xp query @a", "xp add Steve 5", "xp query @s"] {
        let (result, messages) = run(line, &mut server);
        assert_eq!(result, Err(CommandError::ArgumentParseError(ParseFailure::NoMatchingTargets)), "{}", line);
        assert!(messages.is_empty());
    }
    let mut populated = server_with(&[("Alex", 3)]);
    let (result, messages) = run("xp add Steve 5", &mut populated);
    assert_eq!(result, Err(CommandError::ArgumentParseError(ParseFailure::NoMatchingTargets)));
    assert!(messages.is_empty());
    assert_eq!(populated.experience_list(), vec![3]);
}

#[test]
fn self_selector_targets_the_sending_player() {
    let mut server = server_with(&[("Alex", 3), ("Steve", 10)]);
    let mut steve = CommandSender::new(SenderKind::Player(1), 0);
    let result = xp_dispatcher().dispatch("xp add @s 7", &mut steve, &mut server);
    assert_eq!(result, Ok(()));
    assert_eq!(server.experience_list(), vec![3, 17]);
    assert_eq!(steve.messages, vec![String::from("Added 7 points of experience")]);
}

#[test]
fn malformed_lines_are_reported_and_change_nothing() {
    let mut server = server_with(&[("Steve", 42)]);
    let cases = [
        ("", CommandError::UnknownCommand),
        ("xpp add Steve 5", CommandError::UnknownCommand),
        ("xp", CommandError::UsageError { depth: 1 }),
        ("xp add", CommandError::UsageError { depth: 2 }),
        ("xp add Steve", CommandError::UsageError { depth: 3 }),
        ("xp remove Steve 5", CommandError::UsageError { depth: 1 }),
        ("xp add Steve 5 bottles", CommandError::UsageError { depth: 4 }),
        ("xp add Steve 5 levels please", CommandError::UsageError { depth: 5 }),
        ("xp query Steve 5", CommandError::UsageError { depth: 3 }),
        ("xp add Steve five", CommandError::ArgumentParseError(ParseFailure::NotANumber)),
        ("xp add Steve 3000000000", CommandError::ArgumentParseError(ParseFailure::OutOfRange)),
        ("xp add @nobody 5", CommandError::ArgumentParseError(ParseFailure::InvalidSelectorSyntax)),
    ];
    for (line, error) in cases {
        let (result, messages) = run(line, &mut server);
        assert_eq!(result, Err(error), "{:?}", line);
        assert!(messages.is_empty());
        assert_eq!(server.experience_list(), vec![42]);
    }
}

#[test]
fn amounts_that_overflow_fail_and_change_nothing() {
    let mut server = server_with(&[("Alex", 5), ("Steve", i32::MAX - 4)]);
    let overflow = Err(CommandError::ExecutorFailure(ExecutorFailure::ExperienceOverflow));
    let (result, messages) = run("xp add Steve 2147483647 levels", &mut server);
    assert_eq!(result, overflow);
    assert!(messages.is_empty());
    let (result, messages) = run("xp add @a 5", &mut server);
    assert_eq!(result, overflow);
    assert!(messages.is_empty());
    assert_eq!(server.experience_list(), vec![5, i32::MAX - 4]);
    let (result, _) = run("xp set Steve 126322568 levels", &mut server);
    assert_eq!(result, overflow);
    assert_eq!(server.experience_list(), vec![5, i32::MAX - 4]);
    let (result, _) = run("xp add @a 4", &mut server);
    assert_eq!(result, Ok(()));
    assert_eq!(server.experience_list(), vec![9, i32::MAX]);
}

#[test]
fn executors_fail_on_arguments_they_cannot_use() {
    let mut server = server_with(&[("Steve", 42)]);
    let mut sender = console();
    let invalid = Err(CommandError::ExecutorFailure(ExecutorFailure::InvalidConsumption));
    let empty = ConsumedArgs::new();
    assert_eq!(XpAddExecutor(false).execute(&mut sender, &mut server, &empty), invalid);
    assert_eq!(XpSetExecutor(false).execute(&mut sender, &mut server, &empty), invalid);
    assert_eq!(XpQueryExecutor(false).execute(&mut sender, &mut server, &empty), invalid);
    let mut swapped = ConsumedArgs::new();
    swapped.insert(ARG_TARGET, Arg::Num(5));
    swapped.insert(ARG_AMOUNT, Arg::Players(vec![0]));
    assert_eq!(XpAddExecutor(true).execute(&mut sender, &mut server, &swapped), invalid);
    let mut no_amount = ConsumedArgs::new();
    no_amount.insert(ARG_TARGET, Arg::Players(vec![0]));
    assert_eq!(XpSetExecutor(true).execute(&mut sender, &mut server, &no_amount), invalid);
    assert!(sender.messages.is_empty());
    assert_eq!(server.experience_list(), vec![42]);
}

#[test]
fn executors_fail_on_targets_who_are_not_online() {
    let mut server = server_with(&[("Steve", 42)]);
    let mut sender = console();
    let unknown = Err(CommandError::ExecutorFailure(ExecutorFailure::UnknownPlayer));
    let mut args = ConsumedArgs::new();
    args.insert(ARG_TARGET, Arg::Players(vec![0, 1]));
    args.insert(ARG_AMOUNT, Arg::Num(5));
    assert_eq!(XpAddExecutor(false).execute(&mut sender, &mut server, &args), unknown);
    assert_eq!(XpSetExecutor(false).execute(&mut sender, &mut server, &args), unknown);
    assert_eq!(XpQueryExecutor(false).execute(&mut sender, &mut server, &args), unknown);
    assert!(sender.messages.is_empty());
    assert_eq!(server.experience_list(), vec![42]);
    assert!(targets_online(&vec![0], &server));
    assert!(!targets_online(&vec![0, 1], &server));
}

#[test]
fn a_target_named_twice_is_served_twice() {
    let mut server = server_with(&[("Steve", 42)]);
    let mut sender = console();
    let mut args = ConsumedArgs::new();
    args.insert(ARG_TARGET, Arg::Players(vec![0, 0]));
    args.insert(ARG_AMOUNT, Arg::Num(5));
    assert_eq!(XpAddExecutor(false).execute(&mut sender, &mut server, &args), Ok(()));
    assert_eq!(server.experience_list(), vec![52]);
    assert_eq!(sender.messages.len(), 2);
}

#[test]
fn notifications_name_amount_and_unit() {
    let mut sender = console();
    notify_xp_change(&mut sender, 5, true);
    notify_xp_change(&mut sender, -3, false);
    notify_xp_set(&mut sender, 0, true);
    notify_xp_set(&mut sender, 120, false);
    assert_eq!(
        sender.messages,
        vec![
            String::from("Added 5 levels of experience"),
            String::from("Added -3 points of experience"),
            String::from("Set experience to 0 levels"),
            String::from("Set experience to 120 points"),
        ]
    );
}
