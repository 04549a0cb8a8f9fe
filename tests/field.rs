use hackman_bot::error::{Error, ParseErrorKind};
use hackman_bot::field::{parse_field, AiType, Cell, CellItem, Field, GateDirection, Point, BOMB_TIMER_UNKNOWN};
use hackman_bot::number::IntErrorKind;

fn tag(s: &str) -> Result<CellItem, Error> {
    CellItem::parse_tag(s)
}

fn parse_error(r: Result<CellItem, Error>) -> ParseErrorKind {
    match r {
        Err(Error::ParseError(k)) => k,
        other => panic!("expected a parse error, got {:?}", other),
    }
}

#[test]
fn parse_field_test() {
    let field_str = ".,x,P0,S,S2,Gl,E0,B3,C";

    let expected_cells = vec![CellItem::Empty,
                              CellItem::Inaccessible,
                              CellItem::Player(0),
                              CellItem::Spawn(None),
                              CellItem::Spawn(Some(2)),
                              CellItem::Gate(GateDirection::Left),
                              CellItem::Enemy(AiType::Chase),
                              CellItem::Bomb(3),
                              CellItem::CodeSnippet];
    let actual_cells = parse_field(field_str).unwrap();
    assert_eq!(actual_cells.len(), expected_cells.len());
    for (cell, item) in actual_cells.iter().zip(expected_cells.iter()) {
        assert_eq!(cell.cell_items, vec![*item]);
    }
}

#[test]
fn cell_with_two_tags() {
    let cells = parse_field("P2;B5").unwrap();
    assert_eq!(cells.len(), 1);
    assert_eq!(cells[0].cell_items, vec![CellItem::Player(2), CellItem::Bomb(5)]);
}

#[test]
fn unknown_tag_is_invalid_cell_type() {
    assert_eq!(parse_error(tag("Q")), ParseErrorKind::InvalidCellType);
}

#[test]
fn player_without_id_is_number_format() {
    assert_eq!(parse_error(tag("P")), ParseErrorKind::NumberFormat(IntErrorKind::Empty));
}

#[test]
fn every_tag_of_the_table() {
    assert_eq!(tag(".").unwrap(), CellItem::Empty);
    assert_eq!(tag("x").unwrap(), CellItem::Inaccessible);
    assert_eq!(tag("P1").unwrap(), CellItem::Player(1));
    assert_eq!(tag("P-3").unwrap(), CellItem::Player(-3));
    assert_eq!(tag("S").unwrap(), CellItem::Spawn(None));
    assert_eq!(tag("S7").unwrap(), CellItem::Spawn(Some(7)));
    assert_eq!(tag("Gl").unwrap(), CellItem::Gate(GateDirection::Left));
    assert_eq!(tag("Gr").unwrap(), CellItem::Gate(GateDirection::Right));
    assert_eq!(tag("E0").unwrap(), CellItem::Enemy(AiType::Chase));
    assert_eq!(tag("E1").unwrap(), CellItem::Enemy(AiType::Predict));
    assert_eq!(tag("E2").unwrap(), CellItem::Enemy(AiType::Lever));
    assert_eq!(tag("E3").unwrap(), CellItem::Enemy(AiType::FarChase));
    assert_eq!(tag("B").unwrap(), CellItem::Bomb(BOMB_TIMER_UNKNOWN));
    assert_ne!(CellItem::Bomb(BOMB_TIMER_UNKNOWN), CellItem::Bomb(0));
    assert_eq!(tag("B0").unwrap(), CellItem::Bomb(0));
    assert_eq!(tag("C").unwrap(), CellItem::CodeSnippet);
}

#[test]
fn tags_outside_the_table_are_invalid() {
    for t in ["", "G", "Gx", "Gll", "E", "E4", "E00", "C1", ".x", "x.", "q", "é"] {
        assert_eq!(parse_error(tag(t)), ParseErrorKind::InvalidCellType, "tag {:?}", t);
    }
}

#[test]
fn bad_numbers_in_tags() {
    assert_eq!(parse_error(tag("Px")), ParseErrorKind::NumberFormat(IntErrorKind::InvalidDigit));
    assert_eq!(parse_error(tag("S-")), ParseErrorKind::NumberFormat(IntErrorKind::InvalidDigit));
    assert_eq!(parse_error(tag("B2147483648")), ParseErrorKind::NumberFormat(IntErrorKind::PosOverflow));
    assert_eq!(parse_error(tag("P-2147483649")), ParseErrorKind::NumberFormat(IntErrorKind::NegOverflow));
    assert_eq!(tag("P-2147483648").unwrap(), CellItem::Player(i32::MIN));
    assert_eq!(tag("B+4").unwrap(), CellItem::Bomb(4));
}

#[test]
fn tag_through_from_str() {
    let item: CellItem = "E2".parse().unwrap();
    assert_eq!(item, CellItem::Enemy(AiType::Lever));
}

#[test]
fn field_fails_on_first_bad_cell() {
    match parse_field(".,Q,P") {
        Err(Error::ParseError(k)) => assert_eq!(k, ParseErrorKind::InvalidCellType),
        other => panic!("unexpected {:?}", other),
    }
    match parse_field(".,P,Q") {
        Err(Error::ParseError(k)) => assert_eq!(k, ParseErrorKind::NumberFormat(IntErrorKind::Empty)),
        other => panic!("unexpected {:?}", other),
    }
}

#[test]
fn empty_cells_are_invalid() {
    assert!(matches!(parse_field(""), Err(Error::ParseError(ParseErrorKind::InvalidCellType))));
    assert!(matches!(parse_field(".,,."), Err(Error::ParseError(ParseErrorKind::InvalidCellType))));
    assert!(matches!(parse_field("P0;"), Err(Error::ParseError(ParseErrorKind::InvalidCellType))));
}

fn cells(s: &str) -> Vec<Cell> {
    parse_field(s).unwrap()
}

#[test]
fn update_field_finds_positions() {
    let mut field = Field::new(3, 2);
    field.update_field(cells("P1,E0;C,.,B;E3,P0,B2;B"));
    assert_eq!(field.player_position, Some(Point { x: 1, y: 1 }));
    assert_eq!(field.opponent_position, Some(Point { x: 0, y: 0 }));
    assert_eq!(field.enemy_positions, vec![Point { x: 1, y: 0 }, Point { x: 0, y: 1 }]);
    assert_eq!(field.snippet_positions, vec![Point { x: 1, y: 0 }]);
    let bombs = vec![Point { x: 0, y: 1 }, Point { x: 2, y: 1 }, Point { x: 2, y: 1 }];
    assert_eq!(field.bomb_positions, bombs);
    assert_eq!(field.ticking_bomb_positions, bombs);
    assert_eq!(field.field.m.len(), 6);
}

#[test]
fn update_field_twice_gives_the_same_positions() {
    let text = "P0,E1,C;B,x,P1;E2";
    let mut field = Field::new(2, 2);
    field.update_field(cells(text));
    let once = (
        field.player_position,
        field.opponent_position,
        field.enemy_positions.clone(),
        field.snippet_positions.clone(),
        field.bomb_positions.clone(),
        field.ticking_bomb_positions.clone(),
    );
    field.update_field(cells(text));
    let twice = (
        field.player_position,
        field.opponent_position,
        field.enemy_positions.clone(),
        field.snippet_positions.clone(),
        field.bomb_positions.clone(),
        field.ticking_bomb_positions.clone(),
    );
    assert_eq!(once, twice);
    assert_eq!(field.enemy_positions.len(), 2);
    assert_eq!(field.bomb_positions, vec![Point { x: 0, y: 1 }]);
}

#[test]
fn update_field_forgets_the_previous_grid() {
    let mut field = Field::new(2, 1);
    field.update_field(cells("P0,P1;E0"));
    field.update_field(cells(".,."));
    assert_eq!(field.player_position, None);
    assert_eq!(field.opponent_position, None);
    assert!(field.enemy_positions.is_empty());
}

#[test]
fn set_dimensions_keep_the_rest() {
    let mut field = Field::new(1, 1);
    field.update_field(cells("P0"));
    field.set_width(20);
    field.set_height(14);
    assert_eq!((field.field.width, field.field.height), (20, 14));
    assert_eq!(field.player_position, Some(Point { x: 0, y: 0 }));
    assert_eq!(field.field.m.len(), 1);
}

#[test]
fn new_cell_is_empty() {
    assert!(Cell::new().cell_items.is_empty());
}
