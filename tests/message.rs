use hackman_bot::error::{Error, ParseErrorKind};
use hackman_bot::field::CellItem;
use hackman_bot::message::{Action, Message, Setting, Update};
use hackman_bot::number::IntErrorKind;

fn parse(line: &str) -> Message {
    match Message::parse_line(line) {
        Ok(m) => m,
        Err(e) => panic!("{:?} did not decode: {:?}", line, e),
    }
}

fn parse_error(line: &str) -> ParseErrorKind {
    match Message::parse_line(line) {
        Err(Error::ParseError(k)) => k,
        other => panic!("{:?} decoded to {:?}", line, other),
    }
}

#[test]
fn settings_lines() {
    assert!(matches!(parse("settings timebank 500"), Message::Settings(Setting::TimeBank(500))));
    assert!(matches!(parse("settings time_per_move 25"), Message::Settings(Setting::TimePerMove(25))));
    assert!(matches!(parse("settings your_botid 0"), Message::Settings(Setting::YourBotId(0))));
    assert!(matches!(parse("settings field_width 20"), Message::Settings(Setting::FieldWidth(20))));
    assert!(matches!(parse("settings field_height 14"), Message::Settings(Setting::FieldHeight(14))));
    assert!(matches!(parse("settings max_rounds 250"), Message::Settings(Setting::MaxRounds(250))));
    match parse("settings your_bot player0") {
        Message::Settings(Setting::YourBot(name)) => assert_eq!(name, "player0"),
        other => panic!("{:?}", other),
    }
    match parse("settings player_names player0,player1") {
        Message::Settings(Setting::PlayerNames(names)) => assert_eq!(names, vec!["player0", "player1"]),
        other => panic!("{:?}", other),
    }
}

#[test]
fn update_lines() {
    assert!(matches!(parse("update game round 3"), Message::Update(Update::GameRound(3))));
    match parse("update game field .,P0;B1") {
        Message::Update(Update::GameField(cells)) => {
            assert_eq!(cells.len(), 2);
            assert_eq!(cells[0].cell_items, vec![CellItem::Empty]);
            assert_eq!(cells[1].cell_items, vec![CellItem::Player(0), CellItem::Bomb(1)]);
        }
        other => panic!("{:?}", other),
    }
    match parse("update bob snippets 4") {
        Message::Update(Update::PlayerSnippets(name, n)) => {
            assert_eq!(name, "bob");
            assert_eq!(n, 4);
        }
        other => panic!("{:?}", other),
    }
    match parse("update bob bombs 2") {
        Message::Update(Update::PlayerBombs(name, n)) => {
            assert_eq!(name, "bob");
            assert_eq!(n, 2);
        }
        other => panic!("{:?}", other),
    }
    match parse("update game bombs 1") {
        Message::Update(Update::PlayerBombs(name, 1)) => assert_eq!(name, "game"),
        other => panic!("{:?}", other),
    }
}

#[test]
fn action_lines() {
    assert!(matches!(
        parse("action character 10000"),
        Message::Action(Action::Character { time_to_respond: 10000 })
    ));
    assert!(matches!(parse("action move 9500"), Message::Action(Action::Move { time_to_respond: 9500 })));
}

#[test]
fn whitespace_between_words() {
    assert!(matches!(parse("  settings\ttimebank   500 \n"), Message::Settings(Setting::TimeBank(500))));
    assert!(matches!(parse("update\u{3000}game round 7"), Message::Update(Update::GameRound(7))));
}

#[test]
fn two_words_are_incomplete() {
    assert_eq!(parse_error("settings timebank"), ParseErrorKind::Incomplete);
    assert_eq!(parse_error(""), ParseErrorKind::Incomplete);
    assert_eq!(parse_error("   "), ParseErrorKind::Incomplete);
    assert_eq!(parse_error("update"), ParseErrorKind::Incomplete);
}

#[test]
fn non_numeric_value_is_number_format() {
    let bad = ParseErrorKind::NumberFormat(IntErrorKind::InvalidDigit);
    assert_eq!(parse_error("settings timebank abc"), bad);
    assert_eq!(parse_error("settings max_rounds 1x"), bad);
    assert_eq!(parse_error("action move soon"), bad);
    assert_eq!(parse_error("update game round three"), bad);
    assert_eq!(parse_error("update bob snippets -"), bad);
    assert_eq!(
        parse_error("settings timebank 99999999999"),
        ParseErrorKind::NumberFormat(IntErrorKind::PosOverflow)
    );
}

#[test]
fn unknown_commands() {
    assert_eq!(parse_error("settings colour blue"), ParseErrorKind::UnknownCommand);
    assert_eq!(parse_error("hello there world"), ParseErrorKind::UnknownCommand);
    assert_eq!(parse_error("settings timebank 500 extra"), ParseErrorKind::UnknownCommand);
    assert_eq!(parse_error("update game round"), ParseErrorKind::UnknownCommand);
    assert_eq!(parse_error("update bob wins 3"), ParseErrorKind::UnknownCommand);
    assert_eq!(parse_error("update alice round 3"), ParseErrorKind::UnknownCommand);
    assert_eq!(parse_error("Settings timebank 500"), ParseErrorKind::UnknownCommand);
}

#[test]
fn lines_of_five_words_are_unknown() {
    assert_eq!(parse_error("update game round 3 later"), ParseErrorKind::UnknownCommand);
    assert_eq!(parse_error("update bob bombs 2 3"), ParseErrorKind::UnknownCommand);
    assert_eq!(parse_error("settings timebank 5 6 7"), ParseErrorKind::UnknownCommand);
}

#[test]
fn bad_field_in_update() {
    assert_eq!(parse_error("update game field .,Z"), ParseErrorKind::InvalidCellType);
}

#[test]
fn four_word_action_is_unknown() {
    assert_eq!(parse_error("action move 100 now"), ParseErrorKind::UnknownCommand);
}

#[test]
fn message_through_from_str() {
    let m: Message = "settings timebank 42".parse().unwrap();
    assert!(matches!(m, Message::Settings(Setting::TimeBank(42))));
}
