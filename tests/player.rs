use hackman_bot::player::{make_move, CharacterType, Move, MoveType, Player};

#[test]
fn new_player_record() {
    let p = Player::new("bob".to_string());
    assert_eq!(p.name, "bob");
    assert_eq!((p.bombs, p.snippets), (0, 0));
    assert_eq!(p.character, CharacterType::Bixie);
    assert_eq!(p.bomb_drop, None);
    assert_eq!(p.character_type(), "bixie");
}

#[test]
fn bixiette_name() {
    let mut p = Player::new("eve".to_string());
    p.character = CharacterType::Bixiette;
    assert_eq!(p.character_type(), "bixiette");
}

#[test]
fn move_text() {
    assert_eq!(Move::new().to_string(), "pass;drop_bomb 0");
    let m = Move { move_type: MoveType::Left, bomb_ticks: 12 };
    assert_eq!(m.to_string(), "left;drop_bomb 12");
    let m = Move { move_type: MoveType::Up, bomb_ticks: -7 };
    assert_eq!(m.to_string(), "up;drop_bomb -7");
}

#[test]
fn default_move_passes() {
    assert_eq!(make_move(), Move { move_type: MoveType::Pass, bomb_ticks: 0 });
    assert_eq!(MoveType::Down.word(), "down");
    assert_eq!(MoveType::Right.word(), "right");
}
