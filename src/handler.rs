//! Applying one decoded event to the match state, and the reply it calls for.
use vstd::prelude::*;
use vstd::string::StringExecFns;
use crate::bot::{find_player, lemma_roster_at, lemma_roster_has, lemma_roster_update, registered, BotState, Settings};
use crate::error::{Error, ErrorModel, ParseErrorKind};
use crate::field::Field;
use crate::message::{message_of, Action, Message, MessageModel, Setting, SettingModel, Update, UpdateModel};
use crate::number::{decimal, push_decimal};
use crate::player::{move_word, Move, MoveType, PlayerModel};
use crate::simple_matrix::Matrix;

verus! {

/// The opponent's id for a two-player match: the id after one's own, wrapping
/// at the end of the `i32` range so that the two never coincide.
pub open spec fn next_id(id: i32) -> i32 {
    if id == i32::MAX {
        i32::MIN
    } else {
        (id + 1) as i32
    }
}

/// The move picked from the field: a fixed rule on the two players' columns that
/// stands in until a real strategy is plugged in; `Pass` when it does not apply.
pub open spec fn chosen_move(f: Field) -> MoveType {
    match (f.player_position, f.opponent_position) {
        (Some(p), Some(o)) => if o.x == 0 {
            MoveType::Pass
        } else {
            let r = p.x % o.x;
            if r == 0 {
                MoveType::Up
            } else if r == 1 {
                MoveType::Down
            } else if r == 2 {
                MoveType::Left
            } else if r == 3 {
                MoveType::Right
            } else {
                MoveType::Pass
            }
        },
        _ => MoveType::Pass,
    }
}

/// What follows the direction in a move reply: the pending bomb, if any.
pub open spec fn bomb_suffix(bomb_drop: Option<i32>) -> Seq<char> {
    match bomb_drop {
        Some(t) => ";drop_bomb "@ + decimal(t as int),
        None => Seq::empty(),
    }
}

/// A reply or an error, with texts as character sequences.
pub open spec fn reply_view(r: Result<Option<String>, Error>) -> Result<Option<Seq<char>>, ErrorModel> {
    match r {
        Ok(Some(s)) => Ok(Some(s@)),
        Ok(None) => Ok(None),
        Err(e) => Err(e@),
    }
}

/// The effect of a setting on `before`, and its reply.
pub open spec fn setting_applied(
    before: BotState,
    after: BotState,
    s: SettingModel,
    out: Result<Option<Seq<char>>, ErrorModel>,
) -> bool {
    match s {
        SettingModel::TimeBank(n) => {
            &&& after == (BotState { settings: Settings { time_bank: n, ..before.settings }, ..before })
            &&& out == Ok::<_, ErrorModel>(Some("set time_bank "@ + decimal(n as int)))
        },
        SettingModel::TimePerMove(n) => {
            &&& after == (BotState {
                settings: Settings { time_per_move: n, ..before.settings },
                ..before
            })
            &&& out == Ok::<_, ErrorModel>(None::<Seq<char>>)
        },
        SettingModel::PlayerNames(names) => {
            &&& after.settings == before.settings
            &&& after.field == before.field
            &&& after.roster() == registered(before.roster(), names)
            &&& out == Ok::<_, ErrorModel>(None::<Seq<char>>)
        },
        SettingModel::YourBot(name) => {
            &&& after.settings.name@ == name
            &&& after.settings == (Settings { name: after.settings.name, ..before.settings })
            &&& after.players == before.players
            &&& after.field == before.field
            &&& out == Ok::<_, ErrorModel>(None::<Seq<char>>)
        },
        SettingModel::YourBotId(id) => {
            &&& after == (BotState {
                settings: Settings { id, ..before.settings },
                field: Field { player_id: id, opponent_id: next_id(id), ..before.field },
                ..before
            })
            &&& out == Ok::<_, ErrorModel>(None::<Seq<char>>)
        },
        SettingModel::FieldWidth(w) => {
            &&& after == (BotState {
                field: Field {
                    field: Matrix { width: dimension(w), ..before.field.field },
                    ..before.field
                },
                ..before
            })
            &&& out == Ok::<_, ErrorModel>(None::<Seq<char>>)
        },
        SettingModel::FieldHeight(h) => {
            &&& after == (BotState {
                field: Field {
                    field: Matrix { height: dimension(h), ..before.field.field },
                    ..before.field
                },
                ..before
            })
            &&& out == Ok::<_, ErrorModel>(None::<Seq<char>>)
        },
        SettingModel::MaxRounds(n) => {
            &&& after == (BotState { settings: Settings { max_rounds: n, ..before.settings }, ..before })
            &&& out == Ok::<_, ErrorModel>(None::<Seq<char>>)
        },
    }
}

/// The effect of a change to a player's record: it needs the record to exist.
pub open spec fn record_changed(
    before: BotState,
    after: BotState,
    name: Seq<char>,
    changed: PlayerModel,
    out: Result<Option<Seq<char>>, ErrorModel>,
) -> bool {
    if before.roster().contains_key(name) {
        &&& after.settings == before.settings
        &&& after.field == before.field
        &&& after.roster() == before.roster().insert(name, changed)
        &&& out == Ok::<_, ErrorModel>(None::<Seq<char>>)
    } else {
        &&& after == before
        &&& out == Err::<Option<Seq<char>>, _>(ErrorModel::PlayerNotFound(name))
    }
}

/// The effect of an update on `before`, and its reply.
pub open spec fn update_applied(
    before: BotState,
    after: BotState,
    u: UpdateModel,
    out: Result<Option<Seq<char>>, ErrorModel>,
) -> bool {
    match u {
        UpdateModel::GameRound(n) => {
            &&& after == (BotState { settings: Settings { round: n, ..before.settings }, ..before })
            &&& out == Ok::<_, ErrorModel>(None::<Seq<char>>)
        },
        UpdateModel::GameField(cells) => {
            &&& after.settings == before.settings
            &&& after.players == before.players
            &&& after.field.updated_from(before.field, cells)
            &&& out == Ok::<_, ErrorModel>(None::<Seq<char>>)
        },
        UpdateModel::PlayerSnippets(name, n) => record_changed(
            before,
            after,
            name,
            PlayerModel { snippets: n, ..before.roster()[name] },
            out,
        ),
        UpdateModel::PlayerBombs(name, n) => record_changed(
            before,
            after,
            name,
            PlayerModel { bombs: n, ..before.roster()[name] },
            out,
        ),
    }
}

/// The reply to a move request: the direction, then the pending bomb, if any.
pub open spec fn move_reply_text(direction: MoveType, bomb_drop: Option<i32>) -> Seq<char> {
    move_word(direction) + bomb_suffix(bomb_drop)
}

/// The reply to an action, where `direction` is what the decision function picked
/// for a move request; actions leave the state as it is.
pub open spec fn action_reply(before: BotState, a: Action, direction: MoveType) -> Result<
    Option<Seq<char>>,
    ErrorModel,
> {
    match a {
        Action::Character { .. } => Ok(Some("bixie"@)),
        Action::Move { .. } => {
            let own = before.settings.name@;
            if before.roster().contains_key(own) {
                Ok(Some(move_reply_text(direction, before.roster()[own].bomb_drop)))
            } else {
                Err(ErrorModel::PlayerNotFound(own))
            }
        },
    }
}

/// The declared grid dimension for a setting's value: a negative value is read
/// as zero.
pub open spec fn dimension(n: i32) -> usize {
    if n < 0 {
        0
    } else {
        n as usize
    }
}

/// The effect of an event on `before`, and its reply.
pub open spec fn applied(
    before: BotState,
    after: BotState,
    m: MessageModel,
    out: Result<Option<Seq<char>>, ErrorModel>,
) -> bool {
    match m {
        MessageModel::Settings(s) => setting_applied(before, after, s, out),
        MessageModel::Update(u) => update_applied(before, after, u, out),
        MessageModel::Action(a) => after == before && out == action_reply(
            before,
            a,
            chosen_move(before.field),
        ),
    }
}

/// The decision function: picks the direction of the next move from the field
/// by the fixed rule of `chosen_move`.
fn make_move(field: &Field) -> (r: Move)
    ensures
        r.move_type == chosen_move(*field),
        r.bomb_ticks == 0,
{
    let mut next_move = Move::new();
    if let Some(p) = field.player_position {
        if let Some(o) = field.opponent_position {
            if o.x != 0 {
                next_move.move_type = match p.x % o.x {
                    0 => MoveType::Up,
                    1 => MoveType::Down,
                    2 => MoveType::Left,
                    3 => MoveType::Right,
                    _ => MoveType::Pass,
                };
            }
        }
    }
    next_move
}

/// Sets the count that `set` picks in the record named `name`.
fn change_record(bot: &mut BotState, name: String, n: i32, bombs: bool) -> (r: Result<
    Option<String>,
    Error,
>)
    requires
        old(bot).wf(),
    ensures
        final(bot).wf(),
        record_changed(
            *old(bot),
            *final(bot),
            name@,
            if bombs {
                PlayerModel { bombs: n, ..old(bot).roster()[name@] }
            } else {
                PlayerModel { snippets: n, ..old(bot).roster()[name@] }
            },
            reply_view(r),
        ),
{
    match find_player(&bot.players, &name) {
        Some(i) => {
            proof {
                lemma_roster_at(bot.players@, i as int);
            }
            let ghost before = bot.players@;
            if bombs {
                bot.players[i].bombs = n;
            } else {
                bot.players[i].snippets = n;
            }
            proof {
                assert(bot.players@ == before.update(i as int, bot.players@[i as int]));
                lemma_roster_update(before, i as int, bot.players@[i as int]);
            }
            Ok(None)
        },
        None => {
            proof {
                lemma_roster_has(bot.players@, name@);
            }
            Err(Error::PlayerNotFound(name))
        },
    }
}

fn to_dimension(n: i32) -> (r: usize)
    ensures
        r == dimension(n),
{
    if n < 0 {
        0
    } else {
        n as usize
    }
}

/// Writes the reply to a move request: the direction word, then
/// `;drop_bomb <timer>` when a bomb is pending.
pub fn move_reply(direction: MoveType, bomb_drop: Option<i32>) -> (r: String)
    ensures
        r@ == move_reply_text(direction, bomb_drop),
{
    let mut reply = direction.word().to_owned();
    if let Some(detonation_time) = bomb_drop {
        reply.append(";drop_bomb ");
        push_decimal(&mut reply, detonation_time);
    }
    reply
}

/// Answers an action from the state, given the direction that the decision
/// function picked; the state is only read.
pub fn reply_to_action(bot: &BotState, a: Action, direction: MoveType) -> (r: Result<
    Option<String>,
    Error,
>)
    requires
        bot.wf(),
    ensures
        reply_view(r) == action_reply(*bot, a, direction),
{
    match a {
        Action::Character { .. } => {
            proof {
                reveal_strlit("bixie");
            }
            Ok(Some("bixie".to_owned()))
        },
        Action::Move { .. } => {
            match find_player(&bot.players, &bot.settings.name) {
                Some(i) => {
                    proof {
                        lemma_roster_at(bot.players@, i as int);
                    }
                    Ok(Some(move_reply(direction, bot.players[i].bomb_drop)))
                },
                None => {
                    proof {
                        lemma_roster_has(bot.players@, bot.settings.name@);
                    }
                    Err(Error::PlayerNotFound(bot.settings.name.clone()))
                },
            }
        },
    }
}

/// Applies one decoded event to the state and gives the reply it calls for.
pub fn apply_message(bot: &mut BotState, msg: Message) -> (r: Result<Option<String>, Error>)
    requires
        old(bot).wf(),
    ensures
        final(bot).wf(),
        applied(*old(bot), *final(bot), msg@, reply_view(r)),
{
    match msg {
        Message::Settings(Setting::TimeBank(n)) => {
            bot.settings.time_bank = n;
            let mut reply = "set time_bank ".to_owned();
            push_decimal(&mut reply, n);
            Ok(Some(reply))
        },
        Message::Settings(Setting::TimePerMove(n)) => {
            bot.settings.time_per_move = n;
            Ok(None)
        },
        Message::Settings(Setting::PlayerNames(names)) => {
            bot.register_players(names);
            Ok(None)
        },
        Message::Settings(Setting::YourBot(bot_name)) => {
            bot.settings.name = bot_name;
            Ok(None)
        },
        Message::Settings(Setting::YourBotId(id)) => {
            bot.settings.id = id;
            bot.field.player_id = id;
            bot.field.opponent_id = if id == i32::MAX {
                i32::MIN
            } else {
                id + 1
            };
            Ok(None)
        },
        Message::Settings(Setting::FieldWidth(w)) => {
            bot.field.set_width(to_dimension(w));
            Ok(None)
        },
        Message::Settings(Setting::FieldHeight(h)) => {
            bot.field.set_height(to_dimension(h));
            Ok(None)
        },
        Message::Settings(Setting::MaxRounds(max)) => {
            bot.settings.max_rounds = max;
            Ok(None)
        },
        Message::Update(Update::GameRound(n)) => {
            bot.settings.round = n;
            Ok(None)
        },
        Message::Update(Update::GameField(field_update)) => {
            bot.field.update_field(field_update);
            Ok(None)
        },
        Message::Update(Update::PlayerSnippets(player, n)) => change_record(bot, player, n, false),
        Message::Update(Update::PlayerBombs(player, n)) => change_record(bot, player, n, true),
        Message::Action(a) => {
            let direction = make_move(&bot.field).move_type;
            reply_to_action(bot, a, direction)
        },
    }
}

/// Process incoming messages to update game state: decodes `line`, applies the
/// event, and gives the reply to send, if any. A line that does not decode
/// leaves the state as it was.
pub fn handle_message(line: String, bot: &mut BotState) -> (r: Result<Option<String>, Error>)
    requires
        old(bot).wf(),
    ensures
        final(bot).wf(),
        match message_of(line@) {
            Ok(m) => applied(*old(bot), *final(bot), m, reply_view(r)),
            Err(e) => *final(bot) == *old(bot) && reply_view(r) == Err::<Option<Seq<char>>, _>(
                ErrorModel::ParseError(e),
            ),
        },
{
    match Message::parse_line(line.as_str()) {
        Ok(msg) => apply_message(bot, msg),
        Err(e) => Err(e),
    }
}

} // verus!
