use hackman_bot::bot::BotState;
use hackman_bot::error::{Error, ParseErrorKind};
use hackman_bot::field::Point;
use hackman_bot::handler::{handle_message, move_reply, reply_to_action};
use hackman_bot::message::Action;
use hackman_bot::player::MoveType;
use hackman_bot::number::IntErrorKind;

fn send(bot: &mut BotState, line: &str) -> Result<Option<String>, Error> {
    handle_message(line.to_string(), bot)
}

fn player<'a>(bot: &'a BotState, name: &str) -> &'a hackman_bot::player::Player {
    bot.players.iter().find(|p| p.name == name).expect("registered")
}

#[test]
fn timebank_is_set_and_acknowledged() {
    let mut bot = BotState::new();
    let reply = send(&mut bot, "settings timebank 500").unwrap();
    assert_eq!(reply, Some("set time_bank 500".to_string()));
    assert_eq!(bot.settings.time_bank, 500);
}

#[test]
fn negative_timebank_reply() {
    let mut bot = BotState::new();
    let reply = send(&mut bot, "settings timebank -2147483648").unwrap();
    assert_eq!(reply, Some("set time_bank -2147483648".to_string()));
    let reply = send(&mut bot, "settings timebank 0").unwrap();
    assert_eq!(reply, Some("set time_bank 0".to_string()));
}

#[test]
fn round_is_set_without_reply() {
    let mut bot = BotState::new();
    assert_eq!(send(&mut bot, "update game round 3").unwrap(), None);
    assert_eq!(bot.settings.round, 3);
}

#[test]
fn snippets_of_a_registered_player() {
    let mut bot = BotState::new();
    assert_eq!(send(&mut bot, "settings player_names bob,alice").unwrap(), None);
    assert_eq!(send(&mut bot, "update bob snippets 4").unwrap(), None);
    assert_eq!(player(&bot, "bob").snippets, 4);
    assert_eq!(player(&bot, "alice").snippets, 0);
    assert_eq!(send(&mut bot, "update alice bombs 2").unwrap(), None);
    assert_eq!(player(&bot, "alice").bombs, 2);
    assert_eq!(player(&bot, "bob").bombs, 0);
}

#[test]
fn snippets_of_an_unregistered_player() {
    let mut bot = BotState::new();
    match send(&mut bot, "update bob snippets 4") {
        Err(Error::PlayerNotFound(name)) => assert_eq!(name, "bob"),
        other => panic!("{:?}", other),
    }
    match send(&mut bot, "update carol bombs 1") {
        Err(Error::PlayerNotFound(name)) => assert_eq!(name, "carol"),
        other => panic!("{:?}", other),
    }
    assert!(bot.players.is_empty());
}

#[test]
fn registering_again_resets_the_record() {
    let mut bot = BotState::new();
    send(&mut bot, "settings player_names bob").unwrap();
    send(&mut bot, "update bob bombs 3").unwrap();
    send(&mut bot, "settings player_names bob,bob,eve").unwrap();
    assert_eq!(bot.players.len(), 2);
    assert_eq!(player(&bot, "bob").bombs, 0);
}

#[test]
fn settings_fill_the_state() {
    let mut bot = BotState::new();
    send(&mut bot, "settings time_per_move 25").unwrap();
    send(&mut bot, "settings your_bot player1").unwrap();
    send(&mut bot, "settings your_botid 1").unwrap();
    send(&mut bot, "settings field_width 20").unwrap();
    send(&mut bot, "settings field_height 14").unwrap();
    send(&mut bot, "settings max_rounds 250").unwrap();
    assert_eq!(bot.settings.time_per_move, 25);
    assert_eq!(bot.settings.name, "player1");
    assert_eq!(bot.settings.id, 1);
    assert_eq!(bot.field.player_id, 1);
    assert_eq!(bot.field.opponent_id, 2);
    assert_eq!((bot.field.field.width, bot.field.field.height), (20, 14));
    assert_eq!(bot.settings.max_rounds, 250);
}

#[test]
fn opponent_id_never_equals_own_id() {
    let mut bot = BotState::new();
    send(&mut bot, "settings your_botid 2147483647").unwrap();
    assert_eq!(bot.field.player_id, i32::MAX);
    assert_eq!(bot.field.opponent_id, i32::MIN);
}

#[test]
fn parse_errors_leave_the_state() {
    let mut bot = BotState::new();
    match send(&mut bot, "settings timebank") {
        Err(Error::ParseError(ParseErrorKind::Incomplete)) => {}
        other => panic!("{:?}", other),
    }
    match send(&mut bot, "settings timebank lots") {
        Err(Error::ParseError(ParseErrorKind::NumberFormat(IntErrorKind::InvalidDigit))) => {}
        other => panic!("{:?}", other),
    }
    assert_eq!(bot.settings.time_bank, 0);
}

#[test]
fn field_update_and_move() {
    let mut bot = BotState::new();
    send(&mut bot, "settings player_names player0,player1").unwrap();
    send(&mut bot, "settings your_bot player0").unwrap();
    send(&mut bot, "settings your_botid 0").unwrap();
    send(&mut bot, "settings field_width 3").unwrap();
    send(&mut bot, "settings field_height 3").unwrap();
    assert_eq!(send(&mut bot, "update game field .,.,P0,.,P1,.,.,.,.").unwrap(), None);
    assert_eq!(bot.field.player_position, Some(Point { x: 2, y: 0 }));
    assert_eq!(bot.field.opponent_position, Some(Point { x: 1, y: 1 }));
    // 2 % 1 == 0: up.
    assert_eq!(send(&mut bot, "action move 1000").unwrap(), Some("up".to_string()));
    send(&mut bot, "update game field .,P0,P1,.,.,.,.,.,.").unwrap();
    // 1 % 2 == 1: down.
    assert_eq!(send(&mut bot, "action move 1000").unwrap(), Some("down".to_string()));
    // With the opponent in column 0 the rule does not apply.
    send(&mut bot, "update game field P1,.,.,.,.,P0,.,.,.").unwrap();
    assert_eq!(send(&mut bot, "action move 1000").unwrap(), Some("pass".to_string()));
}

#[test]
fn move_with_a_pending_bomb() {
    let mut bot = BotState::new();
    send(&mut bot, "settings player_names player0,player1").unwrap();
    send(&mut bot, "settings your_bot player0").unwrap();
    let i = bot.players.iter().position(|p| p.name == "player0").unwrap();
    bot.players[i].bomb_drop = Some(3);
    assert_eq!(send(&mut bot, "action move 100").unwrap(), Some("pass;drop_bomb 3".to_string()));
}

#[test]
fn move_without_own_record() {
    let mut bot = BotState::new();
    send(&mut bot, "settings your_bot ghost").unwrap();
    match send(&mut bot, "action move 100") {
        Err(Error::PlayerNotFound(name)) => assert_eq!(name, "ghost"),
        other => panic!("{:?}", other),
    }
}

#[test]
fn character_reply() {
    let mut bot = BotState::new();
    assert_eq!(send(&mut bot, "action character 100").unwrap(), Some("bixie".to_string()));
}

#[test]
fn error_messages() {
    assert_eq!(Error::PlayerNotFound("bob".to_string()).message(), "Player not found error bob");
    assert_eq!(
        Error::ParseError(ParseErrorKind::NumberFormat(IntErrorKind::Empty)).message(),
        "Parse error Could not parse value Empty"
    );
    assert_eq!(Error::ParseError(ParseErrorKind::Incomplete).message(), "Parse error Incomplete command");
    assert_eq!(Error::UnintentionalBreak.description(), "unintentional break error");
    assert_eq!(Error::IoError("broken pipe".to_string()).message(), "IO error broken pipe");
}

#[test]
fn negative_dimensions_are_zero() {
    let mut bot = BotState::new();
    send(&mut bot, "settings field_width -3").unwrap();
    send(&mut bot, "settings field_height -1").unwrap();
    assert_eq!((bot.field.field.width, bot.field.field.height), (0, 0));
}

#[test]
fn move_reply_text() {
    assert_eq!(move_reply(MoveType::Left, None), "left");
    assert_eq!(move_reply(MoveType::Right, Some(5)), "right;drop_bomb 5");
}

#[test]
fn reply_uses_the_given_direction() {
    let mut bot = BotState::new();
    send(&mut bot, "settings player_names me,you").unwrap();
    send(&mut bot, "settings your_bot me").unwrap();
    let reply = reply_to_action(&bot, Action::Move { time_to_respond: 10 }, MoveType::Down).unwrap();
    assert_eq!(reply, Some("down".to_string()));
    let reply = reply_to_action(&bot, Action::Character { time_to_respond: 10 }, MoveType::Down).unwrap();
    assert_eq!(reply, Some("bixie".to_string()));
}
