use pumpkin::command::args::arg_bounded_num::BoundedNumArgumentConsumer;
use pumpkin::command::args::arg_players::PlayersArgumentConsumer;
use pumpkin::command::args::{Arg, ArgumentConsumer, ConsumedArgs};
use pumpkin::command::{
    CommandError, CommandSender, ExecutorFailure, ParseFailure, Requirement, SenderKind,
};
use pumpkin::entity::player::Player;
use pumpkin::server::Server;

fn token(text: &str) -> Vec<char> {
    text.chars().collect()
}

fn line(texts: &[&str]) -> Vec<Vec<char>> {
    texts.iter().map(|t| token(t)).collect()
}

fn server_with(players: &[(&str, i32)]) -> Server {
    let mut server = Server::new();
    for (name, experience) in players {
        server.add_player(Player::new(name, *experience));
    }
    server
}

fn console() -> CommandSender {
    CommandSender::new(SenderKind::Console, 4)
}

#[test]
fn unbounded_consumer_returns_the_number_unchanged() {
    let consumer = BoundedNumArgumentConsumer::new();
    for (text, value) in [("5", 5), ("-10", -10), ("0", 0), ("2147483647", i32::MAX), ("-2147483648", i32::MIN)] {
        assert_eq!(consumer.parse_token(&token(text)), Ok(value));
    }
}

#[test]
fn bounded_consumer_accepts_the_whole_inclusive_range() {
    let consumer = BoundedNumArgumentConsumer::new().min(0).max(100);
    assert_eq!(consumer.parse_token(&token("0")), Ok(0));
    assert_eq!(consumer.parse_token(&token("50")), Ok(50));
    assert_eq!(consumer.parse_token(&token("100")), Ok(100));
}

#[test]
fn bounded_consumer_rejects_numbers_outside_the_range() {
    let consumer = BoundedNumArgumentConsumer::new().min(0).max(100);
    assert_eq!(consumer.parse_token(&token("-1")), Err(ParseFailure::OutOfRange));
    assert_eq!(consumer.parse_token(&token("101")), Err(ParseFailure::OutOfRange));
    assert_eq!(consumer.parse_token(&token("-10")), Err(ParseFailure::OutOfRange));
    assert_eq!(consumer.parse_token(&token("99999999999")), Err(ParseFailure::OutOfRange));
}

#[test]
fn numerals_beyond_i32_are_out_of_range_even_without_bounds() {
    let consumer = BoundedNumArgumentConsumer::new();
    assert_eq!(consumer.parse_token(&token("2147483648")), Err(ParseFailure::OutOfRange));
    assert_eq!(consumer.parse_token(&token("-2147483649")), Err(ParseFailure::OutOfRange));
}

#[test]
fn bounded_consumer_rejects_what_is_not_a_number() {
    let consumer = BoundedNumArgumentConsumer::new().min(0);
    for text in ["abc", "", "-", "5x", "1.0", "Steve", "@a"] {
        assert_eq!(consumer.parse_token(&token(text)), Err(ParseFailure::NotANumber), "{:?}", text);
    }
}

#[test]
fn lower_bound_alone_leaves_the_top_open() {
    let consumer = BoundedNumArgumentConsumer::new().min(0);
    assert_eq!(consumer.min_inclusive, Some(0));
    assert_eq!(consumer.max_inclusive, None);
    assert_eq!(consumer.parse_token(&token("2147483647")), Ok(i32::MAX));
    assert_eq!(consumer.parse_token(&token("-1")), Err(ParseFailure::OutOfRange));
}

#[test]
fn upper_bound_alone_leaves_the_bottom_open() {
    let consumer = BoundedNumArgumentConsumer::new().max(10);
    assert_eq!(consumer.parse_token(&token("-2147483648")), Ok(i32::MIN));
    assert_eq!(consumer.parse_token(&token("11")), Err(ParseFailure::OutOfRange));
}

#[test]
fn numeric_consumer_advances_the_cursor_by_one() {
    let consumer = BoundedNumArgumentConsumer::new();
    let tokens = line(&["xp", "add", "Steve", "5", "levels"]);
    assert_eq!(consumer.try_consume(&tokens, 3), Ok((5, 4)));
    assert_eq!(consumer.try_consume(&tokens, 2), Err(ParseFailure::NotANumber));
    assert_eq!(consumer.try_consume(&tokens, 5), Err(ParseFailure::NotANumber));
}

#[test]
fn name_selects_the_player_of_that_name() {
    let server = server_with(&[("Alex", 0), ("Steve", 42)]);
    let found = PlayersArgumentConsumer::resolve_token(&token("Steve"), &console(), &server);
    assert_eq!(found, Ok(vec![1usize]));
}

#[test]
fn names_are_case_sensitive() {
    let server = server_with(&[("Alex", 0), ("Steve", 42)]);
    let found = PlayersArgumentConsumer::resolve_token(&token("steve"), &console(), &server);
    assert_eq!(found, Err(ParseFailure::NoMatchingTargets));
}

#[test]
fn all_players_selector_lists_everyone_in_order() {
    let server = server_with(&[("Alex", 0), ("Steve", 42), ("Kai", 7)]);
    let found = PlayersArgumentConsumer::resolve_token(&token("@a"), &console(), &server);
    assert_eq!(found, Ok(vec![0usize, 1, 2]));
}

#[test]
fn empty_group_selector_has_no_matching_targets() {
    let server = Server::new();
    let found = PlayersArgumentConsumer::resolve_token(&token("@a"), &console(), &server);
    assert_eq!(found, Err(ParseFailure::NoMatchingTargets));
}

#[test]
fn self_selector_is_the_sending_player() {
    let server = server_with(&[("Alex", 0), ("Steve", 42)]);
    let steve = CommandSender::new(SenderKind::Player(1), 0);
    let found = PlayersArgumentConsumer::resolve_token(&token("@s"), &steve, &server);
    assert_eq!(found, Ok(vec![1usize]));
}

#[test]
fn self_selector_matches_nobody_for_other_senders() {
    let server = server_with(&[("Alex", 0)]);
    for kind in [SenderKind::Console, SenderKind::Rcon, SenderKind::CommandBlock, SenderKind::Player(3)] {
        let sender = CommandSender::new(kind, 4);
        let found = PlayersArgumentConsumer::resolve_token(&token("@s"), &sender, &server);
        assert_eq!(found, Err(ParseFailure::NoMatchingTargets));
    }
}

#[test]
fn unknown_selector_is_a_syntax_error() {
    let server = server_with(&[("Alex", 0)]);
    for text in ["@", "@x", "@all", "@A", "@sa"] {
        let found = PlayersArgumentConsumer::resolve_token(&token(text), &console(), &server);
        assert_eq!(found, Err(ParseFailure::InvalidSelectorSyntax), "{:?}", text);
    }
}

#[test]
fn unknown_name_has_no_matching_targets() {
    let server = server_with(&[("Alex", 0)]);
    let found = PlayersArgumentConsumer::resolve_token(&token("Herobrine"), &console(), &server);
    assert_eq!(found, Err(ParseFailure::NoMatchingTargets));
}

#[test]
fn players_sharing_a_name_are_all_selected() {
    let server = server_with(&[("Steve", 1), ("Alex", 2), ("Steve", 3)]);
    let found = PlayersArgumentConsumer::resolve_token(&token("Steve"), &console(), &server);
    assert_eq!(found, Ok(vec![0usize, 2]));
}

#[test]
fn selector_resolution_sees_the_server_as_it_is_now() {
    let mut server = server_with(&[("Alex", 0)]);
    let before = PlayersArgumentConsumer::resolve_token(&token("Steve"), &console(), &server);
    assert_eq!(before, Err(ParseFailure::NoMatchingTargets));
    server.add_player(Player::new("Steve", 0));
    let after = PlayersArgumentConsumer::resolve_token(&token("Steve"), &console(), &server);
    assert_eq!(after, Ok(vec![1usize]));
}

#[test]
fn players_consumer_advances_the_cursor_by_one() {
    let server = server_with(&[("Steve", 42)]);
    let tokens = line(&["xp", "query", "Steve"]);
    let consumer = PlayersArgumentConsumer;
    assert_eq!(consumer.try_consume(&tokens, 2, &console(), &server), Ok((vec![0usize], 3)));
    assert_eq!(
        consumer.try_consume(&tokens, 3, &console(), &server),
        Err(ParseFailure::InvalidSelectorSyntax)
    );
}

#[test]
fn argument_consumer_tags_the_value_with_its_type() {
    let server = server_with(&[("Steve", 42)]);
    let tokens = line(&["Steve", "17"]);
    let players = ArgumentConsumer::Players(PlayersArgumentConsumer);
    let number = ArgumentConsumer::BoundedNum(BoundedNumArgumentConsumer::new());
    assert_eq!(players.try_consume(&tokens, 0, &console(), &server), Ok((Arg::Players(vec![0]), 1)));
    assert_eq!(number.try_consume(&tokens, 1, &console(), &server), Ok((Arg::Num(17), 2)));
    assert_eq!(number.try_consume(&tokens, 0, &console(), &server), Err(ParseFailure::NotANumber));
}

#[test]
fn consumed_args_return_what_was_bound() {
    let mut args = ConsumedArgs::new();
    assert_eq!(args.get("amount"), None);
    args.insert("amount", Arg::Num(5));
    args.insert("targets", Arg::Players(vec![0, 2]));
    assert_eq!(args.get("amount"), Some(&Arg::Num(5)));
    assert_eq!(args.get("targets"), Some(&Arg::Players(vec![0, 2])));
    assert_eq!(args.get("Amount"), None);
}

#[test]
fn a_later_binding_replaces_an_earlier_one() {
    let mut args = ConsumedArgs::new();
    args.insert("amount", Arg::Num(5));
    args.insert("amount", Arg::Num(9));
    assert_eq!(args.get("amount"), Some(&Arg::Num(9)));
}

#[test]
fn find_arg_returns_values_of_the_expected_type() {
    let mut args = ConsumedArgs::new();
    args.insert("amount", Arg::Num(5));
    args.insert("targets", Arg::Players(vec![1]));
    assert_eq!(BoundedNumArgumentConsumer::find_arg(&args, "amount"), Ok(5));
    assert_eq!(PlayersArgumentConsumer::find_arg(&args, "targets"), Ok(&vec![1usize]));
}

#[test]
fn find_arg_fails_on_a_missing_or_mistyped_argument() {
    let mut args = ConsumedArgs::new();
    args.insert("amount", Arg::Num(5));
    args.insert("targets", Arg::Players(vec![1]));
    let invalid = CommandError::ExecutorFailure(ExecutorFailure::InvalidConsumption);
    assert_eq!(BoundedNumArgumentConsumer::find_arg(&args, "targets"), Err(invalid));
    assert_eq!(BoundedNumArgumentConsumer::find_arg(&args, "count"), Err(invalid));
    assert_eq!(PlayersArgumentConsumer::find_arg(&args, "amount"), Err(invalid));
    assert_eq!(PlayersArgumentConsumer::find_arg(&args, "nobody"), Err(invalid));
}

#[test]
fn requirements_ask_for_the_senders_capability() {
    let console = CommandSender::new(SenderKind::Console, 4);
    let player = CommandSender::new(SenderKind::Player(0), 0);
    assert!(Requirement::PlayerOnly.test(&player));
    assert!(!Requirement::PlayerOnly.test(&console));
    assert!(Requirement::PermissionLevel(2).test(&console));
    assert!(Requirement::PermissionLevel(4).test(&console));
    assert!(!Requirement::PermissionLevel(2).test(&player));
    assert!(Requirement::PermissionLevel(0).test(&player));
}

#[test]
fn sender_collects_its_messages_in_order() {
    let mut sender = CommandSender::new(SenderKind::Rcon, 4);
    assert!(!sender.is_player());
    assert!(sender.messages.is_empty());
    sender.send_message(String::from("first"));
    sender.send_message(String::from("second"));
    assert_eq!(sender.messages, vec![String::from("first"), String::from("second")]);
    assert_eq!(sender.kind, SenderKind::Rcon);
    assert_eq!(sender.permission_level, 4);
}

#[test]
fn players_keep_their_experience() {
    let mut player = Player::new("Steve", 42);
    assert_eq!(player.gameprofile.name, "Steve");
    assert_eq!(player.get_experience(), 42);
    player.add_experience(85);
    assert_eq!(player.get_experience(), 127);
    player.add_experience(-27);
    assert_eq!(player.get_experience(), 100);
    player.set_experience(-5);
    assert_eq!(player.get_experience(), -5);
}

#[test]
fn server_finds_players_by_position_and_name() {
    let mut server = Server::new();
    assert_eq!(server.player_count(), 0);
    assert_eq!(server.add_player(Player::new("Alex", 1)), 0);
    assert_eq!(server.add_player(Player::new("Steve", 2)), 1);
    assert_eq!(server.player_count(), 2);
    assert_eq!(server.get_player_by_name(&token("Steve")), Some(1));
    assert_eq!(server.get_player_by_name(&token("Kai")), None);
    assert_eq!(server.get_player(1).map(|p| p.get_experience()), Some(2));
    assert!(server.get_player(2).is_none());
    assert_eq!(server.experience_list(), vec![1, 2]);
    server.set_experience_of(0, 10);
    server.add_experience_to(1, 5);
    assert_eq!(server.experience_list(), vec![10, 7]);
}
