//! The line grammar: one line of the engine's protocol decoded into one event.
use vstd::prelude::*;
use vstd::string::StrSliceExecFns;
use crate::error::{number_at, number_of, Error, ParseErrorKind};
use crate::number::{int_of, IntErrorKind};
use crate::field::{cells_view, decode_field, field_of, Cell, CellItem};
use crate::text::{chars_of, pieces, range_is, ranges_within, split, split_ranges, word_ranges, words, Separator};

verus! {

#[derive(Debug)]
pub enum Message {
    Settings(Setting),
    Update(Update),
    Action(Action),
}

#[derive(Debug)]
pub enum Setting {
    TimeBank(i32),
    TimePerMove(i32),
    PlayerNames(Vec<String>),
    YourBot(String),
    YourBotId(i32),
    FieldWidth(i32),
    FieldHeight(i32),
    MaxRounds(i32),
}

#[derive(Debug)]
pub enum Update {
    GameRound(i32),
    GameField(Vec<Cell>),
    PlayerSnippets(String, i32),
    PlayerBombs(String, i32),
}

/// A request for a reply; the value is the time the engine allows for it.
#[derive(Clone, Copy, Debug, PartialEq, Eq, Structural)]
pub enum Action {
    Character { time_to_respond: i32 },
    Move { time_to_respond: i32 },
}

/// A `Setting` with its texts as character sequences.
pub enum SettingModel {
    TimeBank(i32),
    TimePerMove(i32),
    PlayerNames(Seq<Seq<char>>),
    YourBot(Seq<char>),
    YourBotId(i32),
    FieldWidth(i32),
    FieldHeight(i32),
    MaxRounds(i32),
}

/// An `Update` with its texts as character sequences and its cells as their tags.
pub enum UpdateModel {
    GameRound(i32),
    GameField(Seq<Seq<CellItem>>),
    PlayerSnippets(Seq<char>, i32),
    PlayerBombs(Seq<char>, i32),
}

pub enum MessageModel {
    Settings(SettingModel),
    Update(UpdateModel),
    Action(Action),
}

/// The texts of a list of strings.
pub open spec fn texts(v: Seq<String>) -> Seq<Seq<char>> {
    v.map_values(|s: String| s@)
}

impl View for Setting {
    type V = SettingModel;

    open spec fn view(&self) -> SettingModel {
        match self {
            Setting::TimeBank(n) => SettingModel::TimeBank(*n),
            Setting::TimePerMove(n) => SettingModel::TimePerMove(*n),
            Setting::PlayerNames(v) => SettingModel::PlayerNames(texts(v@)),
            Setting::YourBot(s) => SettingModel::YourBot(s@),
            Setting::YourBotId(n) => SettingModel::YourBotId(*n),
            Setting::FieldWidth(n) => SettingModel::FieldWidth(*n),
            Setting::FieldHeight(n) => SettingModel::FieldHeight(*n),
            Setting::MaxRounds(n) => SettingModel::MaxRounds(*n),
        }
    }
}

impl View for Update {
    type V = UpdateModel;

    open spec fn view(&self) -> UpdateModel {
        match self {
            Update::GameRound(n) => UpdateModel::GameRound(*n),
            Update::GameField(v) => UpdateModel::GameField(cells_view(v@)),
            Update::PlayerSnippets(s, n) => UpdateModel::PlayerSnippets(s@, *n),
            Update::PlayerBombs(s, n) => UpdateModel::PlayerBombs(s@, *n),
        }
    }
}

impl View for Message {
    type V = MessageModel;

    open spec fn view(&self) -> MessageModel {
        match self {
            Message::Settings(s) => MessageModel::Settings(s@),
            Message::Update(u) => MessageModel::Update(u@),
            Message::Action(a) => MessageModel::Action(*a),
        }
    }
}

/// A `settings` line, `settings <key> <value>`.
pub open spec fn setting_of(key: Seq<char>, value: Seq<char>) -> Result<SettingModel, ParseErrorKind> {
    if key == "timebank"@ {
        match number_of(value) {
            Ok(n) => Ok(SettingModel::TimeBank(n)),
            Err(e) => Err(e),
        }
    } else if key == "time_per_move"@ {
        match number_of(value) {
            Ok(n) => Ok(SettingModel::TimePerMove(n)),
            Err(e) => Err(e),
        }
    } else if key == "player_names"@ {
        Ok(SettingModel::PlayerNames(split(value, Separator::Char(','))))
    } else if key == "your_bot"@ {
        Ok(SettingModel::YourBot(value))
    } else if key == "your_botid"@ {
        match number_of(value) {
            Ok(n) => Ok(SettingModel::YourBotId(n)),
            Err(e) => Err(e),
        }
    } else if key == "field_width"@ {
        match number_of(value) {
            Ok(n) => Ok(SettingModel::FieldWidth(n)),
            Err(e) => Err(e),
        }
    } else if key == "field_height"@ {
        match number_of(value) {
            Ok(n) => Ok(SettingModel::FieldHeight(n)),
            Err(e) => Err(e),
        }
    } else if key == "max_rounds"@ {
        match number_of(value) {
            Ok(n) => Ok(SettingModel::MaxRounds(n)),
            Err(e) => Err(e),
        }
    } else {
        Err(ParseErrorKind::UnknownCommand)
    }
}

/// An `update` line, `update <subject> <key> <value>`: the subject is `game` or a
/// player's name.
pub open spec fn update_of(subject: Seq<char>, key: Seq<char>, value: Seq<char>) -> Result<
    UpdateModel,
    ParseErrorKind,
> {
    if subject == "game"@ && key == "round"@ {
        match number_of(value) {
            Ok(n) => Ok(UpdateModel::GameRound(n)),
            Err(e) => Err(e),
        }
    } else if subject == "game"@ && key == "field"@ {
        match field_of(value) {
            Ok(cells) => Ok(UpdateModel::GameField(cells)),
            Err(e) => Err(e),
        }
    } else if key == "bombs"@ {
        match number_of(value) {
            Ok(n) => Ok(UpdateModel::PlayerBombs(subject, n)),
            Err(e) => Err(e),
        }
    } else if key == "snippets"@ {
        match number_of(value) {
            Ok(n) => Ok(UpdateModel::PlayerSnippets(subject, n)),
            Err(e) => Err(e),
        }
    } else {
        Err(ParseErrorKind::UnknownCommand)
    }
}

/// An `action` line, `action <kind> <time>`.
pub open spec fn action_of(kind: Seq<char>, time: Seq<char>) -> Result<Action, ParseErrorKind> {
    if kind == "character"@ {
        match number_of(time) {
            Ok(n) => Ok(Action::Character { time_to_respond: n }),
            Err(e) => Err(e),
        }
    } else if kind == "move"@ {
        match number_of(time) {
            Ok(n) => Ok(Action::Move { time_to_respond: n }),
            Err(e) => Err(e),
        }
    } else {
        Err(ParseErrorKind::UnknownCommand)
    }
}

/// A whole line. Fewer than three words is `Incomplete`. `settings` and `action`
/// lines have exactly three words, `update` lines exactly four; any other line is
/// `UnknownCommand`.
pub open spec fn message_of(line: Seq<char>) -> Result<MessageModel, ParseErrorKind> {
    let w = words(line);
    if w.len() < 3 {
        Err(ParseErrorKind::Incomplete)
    } else if w.len() == 3 && w[0] == "settings"@ {
        match setting_of(w[1], w[2]) {
            Ok(s) => Ok(MessageModel::Settings(s)),
            Err(e) => Err(e),
        }
    } else if w.len() == 3 && w[0] == "action"@ {
        match action_of(w[1], w[2]) {
            Ok(a) => Ok(MessageModel::Action(a)),
            Err(e) => Err(e),
        }
    } else if w.len() == 4 && w[0] == "update"@ {
        match update_of(w[1], w[2], w[3]) {
            Ok(u) => Ok(MessageModel::Update(u)),
            Err(e) => Err(e),
        }
    } else {
        Err(ParseErrorKind::UnknownCommand)
    }
}

/// The `settings` keys whose value is a number.
pub open spec fn numeric_setting(key: Seq<char>) -> bool {
    ||| key == "timebank"@
    ||| key == "time_per_move"@
    ||| key == "your_botid"@
    ||| key == "field_width"@
    ||| key == "field_height"@
    ||| key == "max_rounds"@
}

/// A line of fewer than three words is `Incomplete`, whatever its words are.
pub proof fn lemma_short_line_incomplete(line: Seq<char>)
    requires
        words(line).len() < 3,
    ensures
        message_of(line) == Err::<MessageModel, _>(ParseErrorKind::Incomplete),
{
}

/// A line of more than four words matches no command.
pub proof fn lemma_long_line_unknown(line: Seq<char>)
    requires
        words(line).len() > 4,
    ensures
        message_of(line) == Err::<MessageModel, _>(ParseErrorKind::UnknownCommand),
{
}

/// A three-word `settings` or `action` line with a key that takes a number fails
/// with `NumberFormat` when its value is not a decimal `i32`.
pub proof fn lemma_bad_number_is_number_format(line: Seq<char>)
    requires
        words(line).len() == 3,
        (words(line)[0] == "settings"@ && numeric_setting(words(line)[1])) || (words(line)[0]
            == "action"@ && (words(line)[1] == "character"@ || words(line)[1] == "move"@)),
        int_of(words(line)[2]) is Err,
    ensures
        message_of(line) == Err::<MessageModel, _>(
            ParseErrorKind::NumberFormat(int_of(words(line)[2])->Err_0),
        ),
{
    reveal_strlit("settings");
    reveal_strlit("action");
    reveal_strlit("timebank");
    reveal_strlit("time_per_move");
    reveal_strlit("player_names");
    reveal_strlit("your_bot");
    reveal_strlit("your_botid");
    reveal_strlit("field_width");
    reveal_strlit("field_height");
    reveal_strlit("max_rounds");
    reveal_strlit("character");
    reveal_strlit("move");
    assert("max_rounds"@[0] != "your_botid"@[0]);
    assert("timebank"@.len() != "time_per_move"@.len());
    assert("settings"@.len() != "action"@.len());
    let w = words(line);
    if w[0] == "settings"@ {
        assert(w[1] != "player_names"@ && w[1] != "your_bot"@) by {
            assert("player_names"@.len() == 12 && "player_names"@[0] == 'p');
            assert("your_bot"@.len() == 8 && "your_bot"@[0] == 'y');
            assert("timebank"@.len() == 8 && "timebank"@[0] == 't');
            assert("time_per_move"@.len() == 13);
            assert("your_botid"@.len() == 10);
            assert("field_width"@.len() == 11);
            assert("field_height"@.len() == 12 && "field_height"@[0] == 'f');
            assert("max_rounds"@.len() == 10);
        }
        assert(number_of(w[2]) == Err::<i32, _>(
            ParseErrorKind::NumberFormat(int_of(w[2])->Err_0),
        ));
    }
}

/// The string `line[lo..hi]`, for a range of `chars`, the characters of `line`.
fn text_at(line: &str, chars: &Vec<char>, lo: usize, hi: usize) -> (r: String)
    requires
        chars@ == line@,
        lo <= hi <= chars@.len(),
    ensures
        r@ == chars@.subrange(lo as int, hi as int),
{
    line.substring_char(lo, hi).to_owned()
}

fn decode_setting(line: &str, chars: &Vec<char>, key: (usize, usize), value: (usize, usize)) -> (r:
    Result<Setting, ParseErrorKind>)
    requires
        chars@ == line@,
        key.0 <= key.1 <= chars@.len(),
        value.0 <= value.1 <= chars@.len(),
    ensures
        match r {
            Ok(s) => setting_of(
                chars@.subrange(key.0 as int, key.1 as int),
                chars@.subrange(value.0 as int, value.1 as int),
            ) == Ok::<_, ParseErrorKind>(s@),
            Err(e) => setting_of(
                chars@.subrange(key.0 as int, key.1 as int),
                chars@.subrange(value.0 as int, value.1 as int),
            ) == Err::<SettingModel, _>(e),
        },
{
    let (k0, k1) = key;
    let (v0, v1) = value;
    if range_is(chars, k0, k1, "timebank") {
        match number_at(chars, v0, v1) {
            Ok(n) => Ok(Setting::TimeBank(n)),
            Err(e) => Err(e),
        }
    } else if range_is(chars, k0, k1, "time_per_move") {
        match number_at(chars, v0, v1) {
            Ok(n) => Ok(Setting::TimePerMove(n)),
            Err(e) => Err(e),
        }
    } else if range_is(chars, k0, k1, "player_names") {
        let ranges = split_ranges(chars, v0, v1, Separator::Char(','));
        let mut names: Vec<String> = Vec::new();
        let mut k: usize = 0;
        while k < ranges.len()
            invariant
                k <= ranges@.len(),
                chars@ == line@,
                ranges_within(ranges@, v0 as int, v1 as int),
                v1 <= chars@.len(),
                texts(names@) == pieces(chars@, ranges@).take(k as int),
            decreases ranges@.len() - k,
        {
            let (a, b) = ranges[k];
            proof {
                assert(v0 <= ranges@[k as int].0 <= ranges@[k as int].1 <= v1);
            }
            let name = text_at(line, chars, a, b);
            let ghost before = names@;
            names.push(name);
            proof {
                assert(texts(names@) =~= texts(before).push(name@));
                assert(pieces(chars@, ranges@).take(k + 1) =~= pieces(chars@, ranges@).take(
                    k as int,
                ).push(chars@.subrange(a as int, b as int)));
            }
            k = k + 1;
        }
        assert(pieces(chars@, ranges@).take(ranges@.len() as int) =~= pieces(chars@, ranges@));
        Ok(Setting::PlayerNames(names))
    } else if range_is(chars, k0, k1, "your_bot") {
        Ok(Setting::YourBot(text_at(line, chars, v0, v1)))
    } else if range_is(chars, k0, k1, "your_botid") {
        match number_at(chars, v0, v1) {
            Ok(n) => Ok(Setting::YourBotId(n)),
            Err(e) => Err(e),
        }
    } else if range_is(chars, k0, k1, "field_width") {
        match number_at(chars, v0, v1) {
            Ok(n) => Ok(Setting::FieldWidth(n)),
            Err(e) => Err(e),
        }
    } else if range_is(chars, k0, k1, "field_height") {
        match number_at(chars, v0, v1) {
            Ok(n) => Ok(Setting::FieldHeight(n)),
            Err(e) => Err(e),
        }
    } else if range_is(chars, k0, k1, "max_rounds") {
        match number_at(chars, v0, v1) {
            Ok(n) => Ok(Setting::MaxRounds(n)),
            Err(e) => Err(e),
        }
    } else {
        Err(ParseErrorKind::UnknownCommand)
    }
}

fn decode_update(
    line: &str,
    chars: &Vec<char>,
    subject: (usize, usize),
    key: (usize, usize),
    value: (usize, usize),
) -> (r: Result<Update, ParseErrorKind>)
    requires
        chars@ == line@,
        subject.0 <= subject.1 <= chars@.len(),
        key.0 <= key.1 <= chars@.len(),
        value.0 <= value.1 <= chars@.len(),
    ensures
        match r {
            Ok(u) => update_of(
                chars@.subrange(subject.0 as int, subject.1 as int),
                chars@.subrange(key.0 as int, key.1 as int),
                chars@.subrange(value.0 as int, value.1 as int),
            ) == Ok::<_, ParseErrorKind>(u@),
            Err(e) => update_of(
                chars@.subrange(subject.0 as int, subject.1 as int),
                chars@.subrange(key.0 as int, key.1 as int),
                chars@.subrange(value.0 as int, value.1 as int),
            ) == Err::<UpdateModel, _>(e),
        },
{
    let (s0, s1) = subject;
    let (k0, k1) = key;
    let (v0, v1) = value;
    let game = range_is(chars, s0, s1, "game");
    if game && range_is(chars, k0, k1, "round") {
        match number_at(chars, v0, v1) {
            Ok(n) => Ok(Update::GameRound(n)),
            Err(e) => Err(e),
        }
    } else if game && range_is(chars, k0, k1, "field") {
        match decode_field(chars, v0, v1) {
            Ok(cells) => Ok(Update::GameField(cells)),
            Err(e) => Err(e),
        }
    } else if range_is(chars, k0, k1, "bombs") {
        match number_at(chars, v0, v1) {
            Ok(n) => Ok(Update::PlayerBombs(text_at(line, chars, s0, s1), n)),
            Err(e) => Err(e),
        }
    } else if range_is(chars, k0, k1, "snippets") {
        match number_at(chars, v0, v1) {
            Ok(n) => Ok(Update::PlayerSnippets(text_at(line, chars, s0, s1), n)),
            Err(e) => Err(e),
        }
    } else {
        Err(ParseErrorKind::UnknownCommand)
    }
}

fn decode_action(chars: &Vec<char>, kind: (usize, usize), time: (usize, usize)) -> (r: Result<
    Action,
    ParseErrorKind,
>)
    requires
        kind.0 <= kind.1 <= chars@.len(),
        time.0 <= time.1 <= chars@.len(),
    ensures
        r == action_of(
            chars@.subrange(kind.0 as int, kind.1 as int),
            chars@.subrange(time.0 as int, time.1 as int),
        ),
{
    let (k0, k1) = kind;
    let (t0, t1) = time;
    if range_is(chars, k0, k1, "character") {
        match number_at(chars, t0, t1) {
            Ok(n) => Ok(Action::Character { time_to_respond: n }),
            Err(e) => Err(e),
        }
    } else if range_is(chars, k0, k1, "move") {
        match number_at(chars, t0, t1) {
            Ok(n) => Ok(Action::Move { time_to_respond: n }),
            Err(e) => Err(e),
        }
    } else {
        Err(ParseErrorKind::UnknownCommand)
    }
}

impl Message {
    /// Decodes one protocol line into one event.
    pub fn parse_line(line: &str) -> (r: Result<Message, Error>)
        ensures
            match r {
                Ok(m) => message_of(line@) == Ok::<_, ParseErrorKind>(m@),
                Err(Error::ParseError(e)) => message_of(line@) == Err::<MessageModel, _>(e),
                Err(_) => false,
            },
    {
        let chars = chars_of(line);
        let ws = word_ranges(&chars);
        let ghost w = words(chars@);
        if ws.len() < 3 {
            return Err(Error::ParseError(ParseErrorKind::Incomplete));
        }
        proof {
            assert(0 <= ws@[0].0 <= ws@[0].1 <= chars@.len());
            assert(0 <= ws@[1].0 <= ws@[1].1 <= chars@.len());
            assert(0 <= ws@[2].0 <= ws@[2].1 <= chars@.len());
            assert(w[0] == chars@.subrange(ws@[0].0 as int, ws@[0].1 as int));
            assert(w[1] == chars@.subrange(ws@[1].0 as int, ws@[1].1 as int));
            assert(w[2] == chars@.subrange(ws@[2].0 as int, ws@[2].1 as int));
        }
        let (a0, a1) = ws[0];
        if ws.len() == 3 && range_is(&chars, a0, a1, "settings") {
            match decode_setting(line, &chars, ws[1], ws[2]) {
                Ok(s) => Ok(Message::Settings(s)),
                Err(e) => Err(Error::ParseError(e)),
            }
        } else if ws.len() == 3 && range_is(&chars, a0, a1, "action") {
            match decode_action(&chars, ws[1], ws[2]) {
                Ok(a) => Ok(Message::Action(a)),
                Err(e) => Err(Error::ParseError(e)),
            }
        } else if ws.len() == 4 && range_is(&chars, a0, a1, "update") {
            proof {
                assert(0 <= ws@[3].0 <= ws@[3].1 <= chars@.len());
                assert(w[3] == chars@.subrange(ws@[3].0 as int, ws@[3].1 as int));
            }
            match decode_update(line, &chars, ws[1], ws[2], ws[3]) {
                Ok(u) => Ok(Message::Update(u)),
                Err(e) => Err(Error::ParseError(e)),
            }
        } else {
            Err(Error::ParseError(ParseErrorKind::UnknownCommand))
        }
    }
}

impl std::str::FromStr for Message {
    type Err = Error;

    /// Decodes one protocol line, as `Message::parse_line` does.
    fn from_str(s: &str) -> (r: Result<Message, Error>)
        ensures
            match r {
                Ok(m) => message_of(s@) == Ok::<_, ParseErrorKind>(m@),
                Err(Error::ParseError(e)) => message_of(s@) == Err::<MessageModel, _>(e),
                Err(_) => false,
            },
    {
        Message::parse_line(s)
    }
}

} // verus!
