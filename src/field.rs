//! The playing field: the cell grammar, and the positions of interest that are
//! read off a freshly decoded grid.
use vstd::prelude::*;
use crate::error::{number_at, number_of, Error, ParseErrorKind};
use crate::number::{int_of, IntErrorKind};
use crate::simple_matrix::{position_of, Matrix};
use crate::text::{chars_of, pieces, ranges_within, split, split_ranges, Separator};

verus! {

#[derive(Debug)]
pub struct Field {
    pub player_id: i32,
    pub opponent_id: i32,
    pub field: Matrix<Cell>,
    pub player_position: Option<Point>,
    pub opponent_position: Option<Point>,
    pub enemy_positions: Vec<Point>,
    pub snippet_positions: Vec<Point>,
    pub bomb_positions: Vec<Point>,
    pub ticking_bomb_positions: Vec<Point>,
}

/// The contents of one grid location, in the order the engine listed them.
#[derive(Clone, Debug)]
pub struct Cell {
    pub cell_items: Vec<CellItem>,
}

#[derive(Clone, Copy, Debug, PartialEq, Eq, Structural)]
pub enum CellItem {
    Empty,
    Inaccessible,
    Player(i32),
    /// A bug spawn point, with the rounds until it spawns when the engine gives them.
    Spawn(Option<i32>),
    Gate(GateDirection),
    Enemy(AiType),
    /// A bomb and the rounds until it goes off, or `BOMB_TIMER_UNKNOWN`.
    Bomb(i32),
    CodeSnippet,
}

/// The timer of a bomb whose tag carries none.
pub const BOMB_TIMER_UNKNOWN: i32 = -1;

#[derive(Clone, Copy, Debug, PartialEq, Eq, Structural)]
pub enum GateDirection {
    Left,
    Right,
}

#[derive(Clone, Copy, Debug, PartialEq, Eq, Structural)]
pub enum AiType {
    Chase,
    Predict,
    Lever,
    FarChase,
}

#[derive(Clone, Copy, Debug, PartialEq, Eq, Structural)]
pub struct Point {
    pub x: usize,
    pub y: usize,
}

impl View for Cell {
    type V = Seq<CellItem>;

    open spec fn view(&self) -> Seq<CellItem> {
        self.cell_items@
    }
}

/// The contents of each cell of a grid.
pub open spec fn cells_view(cells: Seq<Cell>) -> Seq<Seq<CellItem>> {
    cells.map_values(|c: Cell| c@)
}

// ----- Cell grammar -----

/// One tag: a kind letter and a remainder, looked up as a pair.
pub open spec fn tag_of(t: Seq<char>) -> Result<CellItem, ParseErrorKind> {
    if t.len() == 0 {
        Err(ParseErrorKind::InvalidCellType)
    } else {
        let kind = t[0];
        let rest = t.drop_first();
        if kind == '.' && rest.len() == 0 {
            Ok(CellItem::Empty)
        } else if kind == 'x' && rest.len() == 0 {
            Ok(CellItem::Inaccessible)
        } else if kind == 'P' {
            match number_of(rest) {
                Ok(n) => Ok(CellItem::Player(n)),
                Err(e) => Err(e),
            }
        } else if kind == 'S' && rest.len() == 0 {
            Ok(CellItem::Spawn(None))
        } else if kind == 'S' {
            match number_of(rest) {
                Ok(n) => Ok(CellItem::Spawn(Some(n))),
                Err(e) => Err(e),
            }
        } else if kind == 'G' && rest == seq!['l'] {
            Ok(CellItem::Gate(GateDirection::Left))
        } else if kind == 'G' && rest == seq!['r'] {
            Ok(CellItem::Gate(GateDirection::Right))
        } else if kind == 'E' && rest == seq!['0'] {
            Ok(CellItem::Enemy(AiType::Chase))
        } else if kind == 'E' && rest == seq!['1'] {
            Ok(CellItem::Enemy(AiType::Predict))
        } else if kind == 'E' && rest == seq!['2'] {
            Ok(CellItem::Enemy(AiType::Lever))
        } else if kind == 'E' && rest == seq!['3'] {
            Ok(CellItem::Enemy(AiType::FarChase))
        } else if kind == 'B' && rest.len() == 0 {
            Ok(CellItem::Bomb(BOMB_TIMER_UNKNOWN))
        } else if kind == 'B' {
            match number_of(rest) {
                Ok(n) => Ok(CellItem::Bomb(n)),
                Err(e) => Err(e),
            }
        } else if kind == 'C' && rest.len() == 0 {
            Ok(CellItem::CodeSnippet)
        } else {
            Err(ParseErrorKind::InvalidCellType)
        }
    }
}

/// Decoding a tag has three outcomes and no other: a tag, `InvalidCellType`, or
/// `NumberFormat` with the reason the remainder of a `P`, `S<n>` or `B<n>` tag is
/// not a decimal `i32`.
pub proof fn lemma_tag_outcomes(t: Seq<char>)
    ensures
        match tag_of(t) {
            Ok(_) => true,
            Err(ParseErrorKind::InvalidCellType) => true,
            Err(ParseErrorKind::NumberFormat(e)) => {
                &&& t.len() > 0
                &&& (t[0] == 'P' || (t.len() > 1 && (t[0] == 'S' || t[0] == 'B')))
                &&& int_of(t.drop_first()) == Err::<i32, IntErrorKind>(e)
            },
            Err(_) => false,
        },
{
}

/// Decodes each piece in turn; the first piece that fails decides the error.
pub open spec fn decode_all<A>(
    ps: Seq<Seq<char>>,
    f: spec_fn(Seq<char>) -> Result<A, ParseErrorKind>,
) -> Result<Seq<A>, ParseErrorKind>
    decreases ps.len(),
{
    if ps.len() == 0 {
        Ok(Seq::empty())
    } else {
        match decode_all(ps.drop_last(), f) {
            Err(e) => Err(e),
            Ok(done) => match f(ps.last()) {
                Err(e) => Err(e),
                Ok(a) => Ok(done.push(a)),
            },
        }
    }
}

pub open spec fn tag_decoder() -> spec_fn(Seq<char>) -> Result<CellItem, ParseErrorKind> {
    |t: Seq<char>| tag_of(t)
}

/// One cell: its tags separated by `;`.
pub open spec fn cell_of(t: Seq<char>) -> Result<Seq<CellItem>, ParseErrorKind> {
    decode_all(split(t, Separator::Char(';')), tag_decoder())
}

pub open spec fn cell_decoder() -> spec_fn(Seq<char>) -> Result<Seq<CellItem>, ParseErrorKind> {
    |t: Seq<char>| cell_of(t)
}

/// A whole field: its cells separated by `,`, in row-major order.
pub open spec fn field_of(t: Seq<char>) -> Result<Seq<Seq<CellItem>>, ParseErrorKind> {
    decode_all(split(t, Separator::Char(',')), cell_decoder())
}

proof fn lemma_decode_all_step<A>(
    ps: Seq<Seq<char>>,
    k: int,
    f: spec_fn(Seq<char>) -> Result<A, ParseErrorKind>,
)
    requires
        0 <= k < ps.len(),
    ensures
        decode_all(ps.take(k + 1), f) == (match decode_all(ps.take(k), f) {
            Err(e) => Err(e),
            Ok(done) => match f(ps[k]) {
                Err(e) => Err(e),
                Ok(a) => Ok(done.push(a)),
            },
        }),
{
    assert(ps.take(k + 1).drop_last() =~= ps.take(k));
}

proof fn lemma_decode_all_err<A>(
    ps: Seq<Seq<char>>,
    k: int,
    f: spec_fn(Seq<char>) -> Result<A, ParseErrorKind>,
)
    requires
        0 <= k <= ps.len(),
        decode_all(ps.take(k), f) is Err,
    ensures
        decode_all(ps, f) == decode_all(ps.take(k), f),
    decreases ps.len() - k,
{
    if k < ps.len() {
        lemma_decode_all_step(ps, k, f);
        lemma_decode_all_err(ps, k + 1, f);
    } else {
        assert(ps.take(k) =~= ps);
    }
}

/// Decodes the tag `s[lo..hi]`.
pub fn decode_tag(s: &Vec<char>, lo: usize, hi: usize) -> (r: Result<CellItem, ParseErrorKind>)
    requires
        lo <= hi <= s@.len(),
    ensures
        r == tag_of(s@.subrange(lo as int, hi as int)),
{
    let ghost t = s@.subrange(lo as int, hi as int);
    if lo == hi {
        return Err(ParseErrorKind::InvalidCellType);
    }
    let kind = s[lo];
    let from = lo + 1;
    let ghost rest = s@.subrange(from as int, hi as int);
    assert(t[0] == kind);
    assert(t.drop_first() =~= rest);
    let bare = from == hi;
    let one = if hi - from == 1 {
        s[from]
    } else {
        ' '
    };
    let single = hi - from == 1;
    proof {
        if single {
            assert(rest =~= seq![one]);
        } else {
            assert forall|c: char| rest != seq![c] by {
                assert(rest.len() != seq![c].len());
            }
        }
    }
    if kind == '.' && bare {
        Ok(CellItem::Empty)
    } else if kind == 'x' && bare {
        Ok(CellItem::Inaccessible)
    } else if kind == 'P' {
        match number_at(s, from, hi) {
            Ok(n) => Ok(CellItem::Player(n)),
            Err(e) => Err(e),
        }
    } else if kind == 'S' && bare {
        Ok(CellItem::Spawn(None))
    } else if kind == 'S' {
        match number_at(s, from, hi) {
            Ok(n) => Ok(CellItem::Spawn(Some(n))),
            Err(e) => Err(e),
        }
    } else if kind == 'G' && single && one == 'l' {
        Ok(CellItem::Gate(GateDirection::Left))
    } else if kind == 'G' && single && one == 'r' {
        Ok(CellItem::Gate(GateDirection::Right))
    } else if kind == 'E' && single && one == '0' {
        Ok(CellItem::Enemy(AiType::Chase))
    } else if kind == 'E' && single && one == '1' {
        Ok(CellItem::Enemy(AiType::Predict))
    } else if kind == 'E' && single && one == '2' {
        Ok(CellItem::Enemy(AiType::Lever))
    } else if kind == 'E' && single && one == '3' {
        Ok(CellItem::Enemy(AiType::FarChase))
    } else if kind == 'B' && bare {
        Ok(CellItem::Bomb(BOMB_TIMER_UNKNOWN))
    } else if kind == 'B' {
        match number_at(s, from, hi) {
            Ok(n) => Ok(CellItem::Bomb(n)),
            Err(e) => Err(e),
        }
    } else if kind == 'C' && bare {
        Ok(CellItem::CodeSnippet)
    } else {
        Err(ParseErrorKind::InvalidCellType)
    }
}

/// Decodes the cell `s[lo..hi]`.
fn decode_cell(s: &Vec<char>, lo: usize, hi: usize) -> (r: Result<Cell, ParseErrorKind>)
    requires
        lo <= hi <= s@.len(),
    ensures
        match r {
            Ok(c) => cell_of(s@.subrange(lo as int, hi as int)) == Ok::<_, ParseErrorKind>(c@),
            Err(e) => cell_of(s@.subrange(lo as int, hi as int)) == Err::<Seq<CellItem>, _>(e),
        },
{
    let tags = split_ranges(s, lo, hi, Separator::Char(';'));
    let ghost ps = pieces(s@, tags@);
    let mut cell = Cell::new();
    let mut k: usize = 0;
    assert(ps.take(0) =~= Seq::<Seq<char>>::empty());
    while k < tags.len()
        invariant
            k <= tags@.len(),
            ps == pieces(s@, tags@),
            ps == split(s@.subrange(lo as int, hi as int), Separator::Char(';')),
            ranges_within(tags@, lo as int, hi as int),
            hi <= s@.len(),
            decode_all(ps.take(k as int), tag_decoder()) == Ok::<_, ParseErrorKind>(cell@),
        decreases tags@.len() - k,
    {
        let (a, b) = tags[k];
        proof {
            assert(lo <= tags@[k as int].0 <= tags@[k as int].1 <= hi);
            assert(ps[k as int] == s@.subrange(a as int, b as int));
            lemma_decode_all_step(ps, k as int, tag_decoder());
        }
        match decode_tag(s, a, b) {
            Ok(item) => {
                cell.cell_items.push(item);
            },
            Err(e) => {
                proof {
                    lemma_decode_all_err(ps, k + 1, tag_decoder());
                }
                return Err(e);
            },
        }
        k = k + 1;
    }
    assert(ps.take(tags@.len() as int) =~= ps);
    Ok(cell)
}

/// Decodes the field `s[lo..hi]`: all cells, or the error of the first bad one.
pub(crate) fn decode_field(s: &Vec<char>, lo: usize, hi: usize) -> (r: Result<Vec<Cell>, ParseErrorKind>)
    requires
        lo <= hi <= s@.len(),
    ensures
        match r {
            Ok(v) => field_of(s@.subrange(lo as int, hi as int)) == Ok::<_, ParseErrorKind>(
                cells_view(v@),
            ),
            Err(e) => field_of(s@.subrange(lo as int, hi as int)) == Err::<Seq<Seq<CellItem>>, _>(
                e,
            ),
        },
{
    let ranges = split_ranges(s, lo, hi, Separator::Char(','));
    let ghost ps = pieces(s@, ranges@);
    let mut cells: Vec<Cell> = Vec::new();
    let mut k: usize = 0;
    assert(ps.take(0) =~= Seq::<Seq<char>>::empty());
    assert(cells_view(cells@) =~= Seq::<Seq<CellItem>>::empty());
    while k < ranges.len()
        invariant
            k <= ranges@.len(),
            ps == pieces(s@, ranges@),
            ps == split(s@.subrange(lo as int, hi as int), Separator::Char(',')),
            ranges_within(ranges@, lo as int, hi as int),
            hi <= s@.len(),
            decode_all(ps.take(k as int), cell_decoder()) == Ok::<_, ParseErrorKind>(
                cells_view(cells@),
            ),
        decreases ranges@.len() - k,
    {
        let (a, b) = ranges[k];
        proof {
            assert(lo <= ranges@[k as int].0 <= ranges@[k as int].1 <= hi);
            assert(ps[k as int] == s@.subrange(a as int, b as int));
            lemma_decode_all_step(ps, k as int, cell_decoder());
        }
        match decode_cell(s, a, b) {
            Ok(cell) => {
                let ghost before = cells@;
                cells.push(cell);
                assert(cells_view(cells@) =~= cells_view(before).push(cell@));
            },
            Err(e) => {
                proof {
                    lemma_decode_all_err(ps, k + 1, cell_decoder());
                }
                return Err(e);
            },
        }
        k = k + 1;
    }
    assert(ps.take(ranges@.len() as int) =~= ps);
    Ok(cells)
}

/// Decodes a whole field string: cells separated by `,`, tags within a cell by `;`.
/// Either every cell decodes or the error of the first bad one is returned.
pub fn parse_field(s: &str) -> (r: Result<Vec<Cell>, Error>)
    ensures
        match r {
            Ok(v) => field_of(s@) == Ok::<_, ParseErrorKind>(cells_view(v@)),
            Err(Error::ParseError(e)) => field_of(s@) == Err::<Seq<Seq<CellItem>>, _>(e),
            Err(_) => false,
        },
{
    let chars = chars_of(s);
    assert(chars@.subrange(0, chars@.len() as int) =~= s@);
    match decode_field(&chars, 0, chars.len()) {
        Ok(v) => Ok(v),
        Err(e) => Err(Error::ParseError(e)),
    }
}

impl CellItem {
    /// Decodes one tag, such as `P0`, `S2` or `Gl`.
    pub fn parse_tag(s: &str) -> (r: Result<CellItem, Error>)
        ensures
            match r {
                Ok(item) => tag_of(s@) == Ok::<_, ParseErrorKind>(item),
                Err(Error::ParseError(e)) => tag_of(s@) == Err::<CellItem, _>(e),
                Err(_) => false,
            },
    {
        let chars = chars_of(s);
        assert(chars@.subrange(0, chars@.len() as int) =~= s@);
        match decode_tag(&chars, 0, chars.len()) {
            Ok(item) => Ok(item),
            Err(e) => Err(Error::ParseError(e)),
        }
    }
}

impl std::str::FromStr for CellItem {
    type Err = Error;

    /// Decodes one tag, as `CellItem::parse_tag` does.
    fn from_str(s: &str) -> (r: Result<CellItem, Error>)
        ensures
            match r {
                Ok(item) => tag_of(s@) == Ok::<_, ParseErrorKind>(item),
                Err(Error::ParseError(e)) => tag_of(s@) == Err::<CellItem, _>(e),
                Err(_) => false,
            },
    {
        CellItem::parse_tag(s)
    }
}

impl Cell {
    pub fn new() -> (r: Cell)
        ensures
            r@ == Seq::<CellItem>::empty(),
    {
        Cell { cell_items: Vec::new() }
    }
}

// ----- Positions of interest -----

/// The grid point of the `index`-th cell in row-major order.
pub open spec fn point_at(index: int, width: usize) -> Point {
    let p = position_of(index as usize, width);
    Point { x: p.0, y: p.1 }
}

/// `p` once for each tag of `items` that `wanted` picks.
pub open spec fn cell_points(
    items: Seq<CellItem>,
    p: Point,
    wanted: spec_fn(CellItem) -> bool,
) -> Seq<Point>
    decreases items.len(),
{
    if items.len() == 0 {
        Seq::empty()
    } else {
        cell_points(items.drop_last(), p, wanted) + if wanted(items.last()) {
            seq![p]
        } else {
            Seq::empty()
        }
    }
}

/// The location of every tag that `wanted` picks, in scan order, repeats kept.
pub open spec fn points_where(
    cells: Seq<Seq<CellItem>>,
    width: usize,
    wanted: spec_fn(CellItem) -> bool,
) -> Seq<Point>
    decreases cells.len(),
{
    if cells.len() == 0 {
        Seq::empty()
    } else {
        points_where(cells.drop_last(), width, wanted) + cell_points(
            cells.last(),
            point_at(cells.len() - 1, width),
            wanted,
        )
    }
}

/// The location of the last cell in scan order that holds `item`.
pub open spec fn last_holding(cells: Seq<Seq<CellItem>>, width: usize, item: CellItem) -> Option<
    Point,
>
    decreases cells.len(),
{
    if cells.len() == 0 {
        None
    } else if cells.last().contains(item) {
        Some(point_at(cells.len() - 1, width))
    } else {
        last_holding(cells.drop_last(), width, item)
    }
}

pub open spec fn is_enemy() -> spec_fn(CellItem) -> bool {
    |c: CellItem| c is Enemy
}

pub open spec fn is_bomb() -> spec_fn(CellItem) -> bool {
    |c: CellItem| c is Bomb
}

pub open spec fn is_snippet() -> spec_fn(CellItem) -> bool {
    |c: CellItem| c is CodeSnippet
}

proof fn lemma_points_where_step(
    cells: Seq<Seq<CellItem>>,
    i: int,
    width: usize,
    wanted: spec_fn(CellItem) -> bool,
)
    requires
        0 <= i < cells.len(),
    ensures
        points_where(cells.take(i + 1), width, wanted) == points_where(cells.take(i), width, wanted)
            + cell_points(cells[i], point_at(i, width), wanted),
{
    assert(cells.take(i + 1).drop_last() =~= cells.take(i));
}

proof fn lemma_last_holding_step(cells: Seq<Seq<CellItem>>, i: int, width: usize, item: CellItem)
    requires
        0 <= i < cells.len(),
    ensures
        last_holding(cells.take(i + 1), width, item) == if cells[i].contains(item) {
            Some(point_at(i, width))
        } else {
            last_holding(cells.take(i), width, item)
        },
{
    assert(cells.take(i + 1).drop_last() =~= cells.take(i));
}

proof fn lemma_cell_points_step(items: Seq<CellItem>, j: int, p: Point, wanted: spec_fn(CellItem) -> bool)
    requires
        0 <= j < items.len(),
    ensures
        cell_points(items.take(j + 1), p, wanted) == cell_points(items.take(j), p, wanted) + if wanted(
            items[j],
        ) {
            seq![p]
        } else {
            Seq::empty()
        },
{
    assert(items.take(j + 1).drop_last() =~= items.take(j));
}

proof fn lemma_contains_step(items: Seq<CellItem>, j: int, item: CellItem)
    requires
        0 <= j < items.len(),
    ensures
        items.take(j + 1).contains(item) == (items.take(j).contains(item) || items[j] == item),
{
    if items.take(j).contains(item) {
        let k = choose|k: int| 0 <= k < items.take(j).len() && #[trigger] items.take(j)[k] == item;
        assert(items.take(j + 1)[k] == item);
    }
    if items[j] == item {
        assert(items.take(j + 1)[j] == item);
    }
    if items.take(j + 1).contains(item) {
        let k = choose|k: int| 0 <= k < items.take(j + 1).len() && #[trigger] items.take(j + 1)[k] == item;
        if k < j {
            assert(items.take(j)[k] == item);
        }
    }
}

impl Field {
    /// The positions of interest agree with a full scan of `cells`.
    pub open spec fn projects(&self, cells: Seq<Seq<CellItem>>) -> bool {
        let w = self.field.width;
        &&& self.player_position == last_holding(cells, w, CellItem::Player(self.player_id))
        &&& self.opponent_position == last_holding(cells, w, CellItem::Player(self.opponent_id))
        &&& self.enemy_positions@ == points_where(cells, w, is_enemy())
        &&& self.snippet_positions@ == points_where(cells, w, is_snippet())
        &&& self.bomb_positions@ == points_where(cells, w, is_bomb())
        &&& self.ticking_bomb_positions@ == points_where(cells, w, is_bomb())
    }

    /// `self` is `before` with its grid replaced by `cells` and every position of
    /// interest recomputed from them.
    pub open spec fn updated_from(&self, before: Field, cells: Seq<Seq<CellItem>>) -> bool {
        &&& cells_view(self.field.m@) == cells
        &&& self.field.width == before.field.width
        &&& self.field.height == before.field.height
        &&& self.player_id == before.player_id
        &&& self.opponent_id == before.opponent_id
        &&& self.projects(cells)
    }

    /// A field of the given dimensions with no cells yet; own id 0, opponent id 1.
    pub fn new(width: usize, height: usize) -> (r: Self)
        ensures
            r.player_id == 0,
            r.opponent_id == 1,
            r.field.m@.len() == 0,
            r.field.width == width,
            r.field.height == height,
            r.projects(Seq::empty()),
    {
        Field {
            player_id: 0,
            opponent_id: 1,
            field: Matrix::new(width, height),
            player_position: None,
            opponent_position: None,
            enemy_positions: Vec::new(),
            snippet_positions: Vec::new(),
            bomb_positions: Vec::new(),
            ticking_bomb_positions: Vec::new(),
        }
    }

    /// The grid point of the cell at `index`.
    fn get_point(&self, index: usize) -> (r: Point)
        ensures
            r == point_at(index as int, self.field.width),
    {
        let (x, y) = self.field.position(index);
        Point { x, y }
    }

    /// Replaces the grid with `field` and rebuilds every position of interest from
    /// a full scan of it; nothing of the previous grid is kept.
    pub fn update_field(&mut self, field: Vec<Cell>)
        ensures
            final(self).field.m@ == field@,
            final(self).updated_from(*old(self), cells_view(field@)),
    {
        let ghost cells = cells_view(field@);
        let width = self.field.width;
        let own = CellItem::Player(self.player_id);
        let rival = CellItem::Player(self.opponent_id);
        let mut player_position: Option<Point> = None;
        let mut opponent_position: Option<Point> = None;
        let mut enemies: Vec<Point> = Vec::new();
        let mut snippets: Vec<Point> = Vec::new();
        let mut bombs: Vec<Point> = Vec::new();
        let mut ticking: Vec<Point> = Vec::new();
        let mut i: usize = 0;
        assert(cells.take(0) =~= Seq::<Seq<CellItem>>::empty());
        while i < field.len()
            invariant
                i <= field@.len(),
                cells == cells_view(field@),
                width == self.field.width,
                player_position == last_holding(cells.take(i as int), width, own),
                opponent_position == last_holding(cells.take(i as int), width, rival),
                enemies@ == points_where(cells.take(i as int), width, is_enemy()),
                snippets@ == points_where(cells.take(i as int), width, is_snippet()),
                bombs@ == points_where(cells.take(i as int), width, is_bomb()),
                ticking@ == points_where(cells.take(i as int), width, is_bomb()),
            decreases field@.len() - i,
        {
            let p = self.get_point(i);
            let items = &field[i].cell_items;
            let ghost seen_enemies = enemies@;
            let ghost seen_snippets = snippets@;
            let ghost seen_bombs = bombs@;
            let ghost seen_ticking = ticking@;
            let mut has_own = false;
            let mut has_rival = false;
            let mut j: usize = 0;
            assert(items@.take(0) =~= Seq::<CellItem>::empty());
            while j < items.len()
                invariant
                    j <= items@.len(),
                    enemies@ == seen_enemies + cell_points(items@.take(j as int), p, is_enemy()),
                    snippets@ == seen_snippets + cell_points(
                        items@.take(j as int),
                        p,
                        is_snippet(),
                    ),
                    bombs@ == seen_bombs + cell_points(items@.take(j as int), p, is_bomb()),
                    ticking@ == seen_ticking + cell_points(items@.take(j as int), p, is_bomb()),
                    has_own == items@.take(j as int).contains(own),
                    has_rival == items@.take(j as int).contains(rival),
                decreases items@.len() - j,
            {
                let item = items[j];
                proof {
                    lemma_cell_points_step(items@, j as int, p, is_enemy());
                    lemma_cell_points_step(items@, j as int, p, is_snippet());
                    lemma_cell_points_step(items@, j as int, p, is_bomb());
                    lemma_contains_step(items@, j as int, own);
                    lemma_contains_step(items@, j as int, rival);
                }
                if item == own {
                    has_own = true;
                }
                if item == rival {
                    has_rival = true;
                }
                match item {
                    CellItem::Enemy(_) => {
                        enemies.push(p);
                    },
                    CellItem::Bomb(_) => {
                        bombs.push(p);
                        ticking.push(p);
                    },
                    CellItem::CodeSnippet => {
                        snippets.push(p);
                    },
                    _ => {},
                }
                j = j + 1;
            }
            proof {
                assert(items@.take(items@.len() as int) =~= items@);
                assert(cells[i as int] == items@);
                lemma_points_where_step(cells, i as int, width, is_enemy());
                lemma_points_where_step(cells, i as int, width, is_snippet());
                lemma_points_where_step(cells, i as int, width, is_bomb());
                lemma_last_holding_step(cells, i as int, width, own);
                lemma_last_holding_step(cells, i as int, width, rival);
            }
            if has_own {
                player_position = Some(p);
            }
            if has_rival {
                opponent_position = Some(p);
            }
            i = i + 1;
        }
        assert(cells.take(field@.len() as int) =~= cells);
        self.player_position = player_position;
        self.opponent_position = opponent_position;
        self.enemy_positions = enemies;
        self.snippet_positions = snippets;
        self.bomb_positions = bombs;
        self.ticking_bomb_positions = ticking;
        self.field.m = field;
    }

    /// Sets the declared width; the grid is laid out anew at the next update.
    pub fn set_width(&mut self, width: usize)
        ensures
            *final(self) == (Field { field: Matrix { width, ..old(self).field }, ..*old(self) }),
    {
        self.field.width = width;
    }

    /// Sets the declared height; the grid is laid out anew at the next update.
    pub fn set_height(&mut self, height: usize)
        ensures
            *final(self) == (Field { field: Matrix { height, ..old(self).field }, ..*old(self) }),
    {
        self.field.height = height;
    }
}

/// Applying one decoded field twice in a row leaves the same grid and the same
/// positions of interest after the second application as after the first.
pub proof fn lemma_update_field_idempotent(
    before: Field,
    once: Field,
    twice: Field,
    cells: Seq<Seq<CellItem>>,
)
    requires
        once.updated_from(before, cells),
        twice.updated_from(once, cells),
    ensures
        cells_view(twice.field.m@) == cells_view(once.field.m@),
        twice.player_position == once.player_position,
        twice.opponent_position == once.opponent_position,
        twice.enemy_positions@ == once.enemy_positions@,
        twice.snippet_positions@ == once.snippet_positions@,
        twice.bomb_positions@ == once.bomb_positions@,
        twice.ticking_bomb_positions@ == once.ticking_bomb_positions@,
{
}

} // verus!
