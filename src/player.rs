//! Player records and the moves sent back to the engine.
use vstd::prelude::*;
use vstd::string::StringExecFns;
use crate::number::{decimal, push_decimal};

verus! {

#[derive(Debug)]
pub struct Player {
    pub name: String,
    pub bombs: i32,
    pub snippets: i32,
    pub character: CharacterType,
    /// The timer of a bomb to drop with the next move, if one is pending.
    pub bomb_drop: Option<i32>,
}

/// A `Player` with its name as a character sequence.
pub struct PlayerModel {
    pub name: Seq<char>,
    pub bombs: i32,
    pub snippets: i32,
    pub character: CharacterType,
    pub bomb_drop: Option<i32>,
}

impl View for Player {
    type V = PlayerModel;

    open spec fn view(&self) -> PlayerModel {
        PlayerModel {
            name: self.name@,
            bombs: self.bombs,
            snippets: self.snippets,
            character: self.character,
            bomb_drop: self.bomb_drop,
        }
    }
}

/// The record of a player that has just been registered.
pub open spec fn fresh_player(name: Seq<char>) -> PlayerModel {
    PlayerModel {
        name,
        bombs: 0,
        snippets: 0,
        character: CharacterType::Bixie,
        bomb_drop: None,
    }
}

#[derive(Clone, Copy, Debug, PartialEq, Eq, Structural)]
pub enum CharacterType {
    Bixie,
    Bixiette,
}

pub open spec fn character_name(c: CharacterType) -> Seq<char> {
    match c {
        CharacterType::Bixie => "bixie"@,
        CharacterType::Bixiette => "bixiette"@,
    }
}

#[derive(Clone, Copy, Debug, PartialEq, Eq, Structural)]
pub struct Move {
    pub move_type: MoveType,
    pub bomb_ticks: i32,
}

#[derive(Clone, Copy, Debug, PartialEq, Eq, Structural)]
pub enum MoveType {
    Up,
    Down,
    Left,
    Right,
    Pass,
}

/// The word the protocol uses for a direction.
pub open spec fn move_word(m: MoveType) -> Seq<char> {
    match m {
        MoveType::Up => "up"@,
        MoveType::Down => "down"@,
        MoveType::Left => "left"@,
        MoveType::Right => "right"@,
        MoveType::Pass => "pass"@,
    }
}

impl Player {
    pub fn new(name: String) -> (r: Self)
        ensures
            r@ == fresh_player(name@),
    {
        Player { name: name, bombs: 0, snippets: 0, character: CharacterType::Bixie, bomb_drop: None }
    }

    /// The name of the player's character, as the protocol writes it.
    pub fn character_type(&self) -> (r: String)
        ensures
            r@ == character_name(self.character),
    {
        match self.character {
            CharacterType::Bixie => "bixie".to_owned(),
            CharacterType::Bixiette => "bixiette".to_owned(),
        }
    }
}

impl MoveType {
    /// The word the protocol uses for this direction.
    pub fn word(&self) -> (r: &'static str)
        ensures
            r@ == move_word(*self),
    {
        match self {
            MoveType::Up => "up",
            MoveType::Down => "down",
            MoveType::Left => "left",
            MoveType::Right => "right",
            MoveType::Pass => "pass",
        }
    }
}

impl Move {
    /// Stay in place, no bomb.
    pub fn new() -> (r: Self)
        ensures
            r.move_type == MoveType::Pass,
            r.bomb_ticks == 0,
    {
        Move { move_type: MoveType::Pass, bomb_ticks: 0 }
    }

    /// The move written as `<direction>;drop_bomb <ticks>`.
    pub fn to_string(&self) -> (r: String)
        ensures
            r@ == move_word(self.move_type) + ";drop_bomb "@ + decimal(self.bomb_ticks as int),
    {
        let mut out = self.move_type.word().to_owned();
        out.append(";drop_bomb ");
        push_decimal(&mut out, self.bomb_ticks);
        out
    }
}

/// The move made when nothing has been decided: pass.
pub fn make_move() -> (r: Move)
    ensures
        r == (Move { move_type: MoveType::Pass, bomb_ticks: 0 }),
{
    let next_move = Move::new();
    next_move
}

} // verus!
