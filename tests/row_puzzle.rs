use solve_arrow_puzzle::puzzle::{Arrow, Board, BoardPoke, Row, RowPoke, RowPokeError};
use solve_arrow_puzzle::solve::{pokes_to_align_board, row_lut_index};

fn arrow(v: u8) -> Arrow {
    match v {
        0 => Arrow::Up,
        1 => Arrow::Right,
        2 => Arrow::Down,
        _ => Arrow::Left,
    }
}

fn row(v: [u8; 4]) -> Row {
    Row([arrow(v[0]), arrow(v[1]), arrow(v[2]), arrow(v[3])])
}

fn poke(v: u8) -> RowPoke {
    RowPoke::from_u8(v).unwrap()
}

#[test]
fn arrow_distances() {
    assert_eq!(Arrow::Up.distance_to(Arrow::Left), 3);
    assert_eq!(Arrow::Left.distance_to(Arrow::Up), 1);
    assert_eq!(Arrow::Down.distance_to(Arrow::Down), 0);
    assert_eq!(Arrow::Right.distance_to(Arrow::Up), 3);
    assert_eq!(Arrow::Up.to_char(), '\u{2191}');
    assert_eq!(Arrow::Left.to_char(), '\u{2190}');
}

#[test]
fn row_poke_numbers() {
    assert_eq!(u8::from(RowPoke::C), 2);
    assert_eq!(RowPoke::from_u8(3), Ok(RowPoke::D));
    assert_eq!(RowPoke::from_u8(4), Err(RowPokeError::OutOfBounds(4)));
    assert!(RowPoke::try_from(9u8).is_err());
}

#[test]
fn row_pokes_turn_their_columns() {
    let r = row([0, 0, 0, 0]);
    assert_eq!(r.poke(RowPoke::A), row([1, 1, 0, 0]));
    assert_eq!(r.poke(RowPoke::B), row([1, 1, 1, 0]));
    assert_eq!(r.poke(RowPoke::C), row([0, 1, 1, 1]));
    assert_eq!(r.poke(RowPoke::D), row([0, 0, 1, 1]));
    assert_eq!(row([3, 3, 0, 0]).poke(RowPoke::A), row([0, 0, 0, 0]));
}

#[test]
fn shortest_row_alignment() {
    assert_eq!(row([0, 0, 0, 0]).pokes_to_align(), vec![]);
    assert_eq!(row([1, 0, 0, 0]).pokes_to_align(), vec![RowPoke::C]);
    assert_eq!(row([0, 1, 2, 3]).pokes_to_align(), vec![poke(2), poke(2), poke(2), poke(1), poke(0)]);
    assert_eq!(row([3, 1, 0, 2]).pokes_to_align(), vec![poke(3), poke(2), poke(2), poke(1), poke(1)]);
}

#[test]
fn row_index_is_base_four() {
    assert_eq!(row_lut_index(&row([0, 0, 0, 0])), 0);
    assert_eq!(row_lut_index(&row([1, 2, 3, 0])), 1 + 8 + 48);
    assert_eq!(row_lut_index(&row([3, 3, 3, 3])), 255);
}

#[test]
fn board_pokes_and_alignment() {
    let b = Board([row([0, 0, 0, 0]); 4]);
    assert!(b.aligned());
    let p = b.poke(BoardPoke(RowPoke::A, RowPoke::D));
    assert_eq!(p, Board([row([0, 0, 0, 0]), row([0, 0, 0, 0]), row([1, 1, 0, 0]), row([1, 1, 0, 0])]));
    assert!(!p.aligned());
    let q = b.poke_many(&[BoardPoke(RowPoke::A, RowPoke::A), BoardPoke(RowPoke::D, RowPoke::A), BoardPoke(RowPoke::A, RowPoke::D), BoardPoke(RowPoke::D, RowPoke::D)]);
    assert_eq!(q, Board([row([1, 1, 1, 1]); 4]));
    assert!(q.aligned());
}

#[test]
fn board_solver_turns_every_arrow_up() {
    let b = Board([row([1, 0, 2, 3]), row([0, 0, 1, 1]), row([2, 2, 2, 3]), row([3, 0, 1, 0])]);
    let pokes = pokes_to_align_board(&b);
    let expected: Vec<BoardPoke> = [
        (0, 0), (0, 0), (0, 0), (1, 0), (1, 0), (1, 0), (0, 1), (0, 1), (0, 1), (1, 1), (1, 1), (2, 1), (0, 2), (0, 2),
        (1, 2), (1, 2), (1, 2), (2, 2), (2, 2), (2, 2), (3, 2), (3, 2), (3, 2), (3, 3), (3, 3),
    ]
    .iter()
    .map(|&(x, y)| BoardPoke(poke(x), poke(y)))
    .collect();
    assert_eq!(pokes, expected);
    assert_eq!(b.poke_many(&pokes), Board([row([0, 0, 0, 0]); 4]));
    assert_eq!(pokes_to_align_board(&Board([row([0, 0, 0, 0]); 4])), vec![]);
    let uniform = Board([row([2, 2, 2, 2]); 4]);
    let pokes = pokes_to_align_board(&uniform);
    assert_eq!(uniform.poke_many(&pokes), Board([row([0, 0, 0, 0]); 4]));
}
