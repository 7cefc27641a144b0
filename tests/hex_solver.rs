use solve_arrow_puzzle::expert::{Arrow, ArrowFromU8Error, Board};
use solve_arrow_puzzle::hex::{index_at, Hex, Position};

fn board_of(values: &[u8]) -> Board {
    Board::new(Hex::from_fn(|x, y| Arrow::from_u8(values[index_at(x, y).unwrap()]).unwrap()))
}

fn positions() -> Vec<Position> {
    let hex = Hex::from_fn(|_, _| 0u8);
    hex.enumerate().into_iter().map(|(_, p)| p).collect()
}

fn counts_of(h: &Hex<usize>) -> Vec<usize> {
    h.enumerate().into_iter().map(|(n, _)| *n).collect()
}

fn hex_of(values: &[usize]) -> Hex<usize> {
    Hex::from_fn(|x, y| values[index_at(x, y).unwrap()])
}

fn solves(board: &Board, counts: &Hex<usize>) -> bool {
    let mut b = board.clone();
    b.apply_pokes(counts);
    b.is_solved()
}

#[test]
fn arrow_rejects_six_and_more() {
    assert_eq!(Arrow::from_u8(6), Err(ArrowFromU8Error::OutOfRange(6)));
    assert_eq!(Arrow::from_u8(255), Err(ArrowFromU8Error::OutOfRange(255)));
    assert_eq!(Arrow::from_u8(5).unwrap().value(), 5);
    assert_eq!(Arrow::try_from(7u8), Err(ArrowFromU8Error::OutOfRange(7)));
}

#[test]
fn arrow_distance_wraps_around() {
    let a = |v| Arrow::from_u8(v).unwrap();
    assert_eq!(a(0).distance_to(a(0)), 0);
    assert_eq!(a(1).distance_to(a(0)), 5);
    assert_eq!(a(5).distance_to(a(1)), 2);
    assert_eq!(a(0).distance_to(a(4)), 4);
}

#[test]
fn canonical_order_and_access() {
    let ps = positions();
    assert_eq!(ps.len(), 37);
    assert_eq!(ps[0].as_xy(), (0, 0));
    assert_eq!(ps[4].as_xy(), (0, 1));
    assert_eq!(ps[21].as_xy(), (6, 3));
    assert_eq!(ps[36].as_xy(), (6, 6));
    assert_eq!(ps[21].as_index(), 27);
    let hex = Hex::from_fn(|x, y| x * 10 + y);
    assert_eq!(hex.at(6, 3), Some(&63));
    assert_eq!(hex.at(4, 0), None);
    assert_eq!(hex.at(0, 4), None);
    assert_eq!(hex.at(7, 7), None);
    let mut hex = hex;
    *hex.at_mut(3, 3).unwrap() = 0;
    assert_eq!(hex.at(3, 3), Some(&0));
    assert!(hex.at_mut(6, 0).is_none());
}

#[test]
fn six_turns_and_two_mirrors_restore_the_grid() {
    let start = Hex::from_fn(|x, y| x * 7 + y);
    let mut h = start.clone();
    h.rotate_60_cw();
    assert_ne!(h, start);
    assert_eq!(h.at(0, 0), Some(&3));
    for _ in 0..5 {
        h.rotate_60_cw();
    }
    assert_eq!(h, start);
    h.flip_horizontally();
    assert_eq!(h.at(1, 0), Some(&1));
    assert_eq!(h.at(0, 1), Some(&7));
    h.flip_horizontally();
    assert_eq!(h, start);
}

#[test]
fn visualize_draws_hexagon() {
    let values: Vec<u8> = (0..37).map(|k| (k % 6) as u8).collect();
    let board = board_of(&values);
    let expected = "         0          \n      4     1       \n   3     5     2    \n3     4     0     3 \n   4     5     1    \n4     5     0     2 \n   5     0     1    \n4     0     1     2 \n   5     1     2    \n3     0     2     3 \n   4     1     3    \n      5     2       \n         0          ";
    assert_eq!(board.to_string(), expected);
    let hex = Hex::from_fn(|x, y| (x, y));
    let drawn = hex.visualize(|&(x, y)| if (x, y) == (3, 3) { "long".to_string() } else { "x".to_string() });
    let expected = "               x                  \n          x         x             \n     x         x         x        \nx         x         x         x   \n     x         x         x        \nx         x         x         x   \n     x         long      x        \nx         x         x         x   \n     x         x         x        \nx         x         x         x   \n     x         x         x        \n          x         x             \n               x                  ";
    assert_eq!(drawn, expected);
}

#[test]
fn solved_board_needs_no_pokes() {
    let board = board_of(&[0; 37]);
    assert!(board.is_solved());
    let counts = board.solve();
    assert_eq!(counts_of(&counts), vec![0; 37]);
}

#[test]
fn uniform_boards_are_realigned() {
    let costs = [0, 95, 76, 69, 80, 91];
    for v in 1..6u8 {
        let board = board_of(&[v; 37]);
        assert!(!board.is_solved());
        let counts = board.clone().solve();
        assert!(counts_of(&counts).iter().all(|&n| n < 6));
        assert_eq!(counts_of(&counts).iter().sum::<usize>(), costs[v as usize]);
        assert!(solves(&board, &counts));
    }
    let counts = board_of(&[3; 37]).solve();
    assert_eq!(
        counts_of(&counts),
        vec![3, 3, 0, 3, 0, 3, 0, 3, 3, 0, 3, 3, 3, 3, 3, 0, 0, 0, 3, 0, 0, 0, 3, 3, 3, 3, 3, 0, 3, 3, 0, 3, 0, 3, 0, 3, 3]
    );
}

#[test]
fn center_poked_twice_is_undone() {
    let mut poked = vec![0usize; 37];
    poked[18] = 2;
    let mut board = board_of(&[0; 37]);
    board.apply_pokes(&hex_of(&poked));
    assert!(!board.is_solved());
    let counts = board.clone().solve();
    let mut expected = vec![0usize; 37];
    expected[18] = 4;
    assert_eq!(counts_of(&counts), expected);
    assert!(solves(&board, &counts));
}

#[test]
fn scrambled_board_is_solved() {
    let scramble = [
        2, 1, 3, 5, 0, 0, 4, 0, 2, 4, 0, 4, 1, 0, 0, 3, 3, 0, 1, 0, 4, 3, 0, 4, 0, 1, 5, 5, 4, 0, 4, 4, 3, 0, 1, 0, 4,
    ];
    let mut board = board_of(&[0; 37]);
    board.apply_pokes(&hex_of(&scramble));
    let values = [
        3, 4, 1, 4, 0, 5, 1, 3, 1, 4, 5, 4, 4, 1, 3, 4, 2, 0, 1, 0, 5, 0, 2, 5, 4, 3, 4, 2, 2, 1, 4, 3, 3, 5, 5, 1, 5,
    ];
    assert_eq!(board, board_of(&values));
    let counts = board.clone().solve();
    assert_eq!(
        counts_of(&counts),
        vec![2, 5, 1, 1, 0, 2, 4, 0, 0, 2, 0, 0, 5, 4, 0, 1, 5, 4, 5, 2, 0, 5, 0, 4, 0, 1, 1, 1, 0, 0, 0, 0, 3, 0, 1, 0, 4]
    );
    assert!(solves(&board, &counts));
}

#[test]
fn poke_order_does_not_matter() {
    let first: Vec<usize> = (0..37).map(|k| k % 4).collect();
    let second: Vec<usize> = (0..37).map(|k| (k * 5) % 3).collect();
    let mut a = board_of(&[1; 37]);
    a.apply_pokes(&hex_of(&first));
    a.apply_pokes(&hex_of(&second));
    let mut b = board_of(&[1; 37]);
    b.apply_pokes(&hex_of(&second));
    b.apply_pokes(&hex_of(&first));
    assert_eq!(a, b);
    let sum: Vec<usize> = first.iter().zip(&second).map(|(x, y)| x + y).collect();
    let mut c = board_of(&[1; 37]);
    c.apply_pokes(&hex_of(&sum));
    assert_eq!(a, c);
}

#[test]
fn solution_of_turned_board_maps_back() {
    let scramble: Vec<usize> = (0..37).map(|k| (k * 7 + 3) % 6).collect();
    let mut board = board_of(&[0; 37]);
    board.apply_pokes(&hex_of(&scramble));
    let values: Vec<u8> = (0..37).map(|k| (flower_total(&scramble, k) % 6) as u8).collect();
    assert_eq!(board, board_of(&values));
    let mut turned = Hex::from_fn(|x, y| Arrow::from_u8(values[index_at(x, y).unwrap()]).unwrap());
    turned.rotate_60_cw();
    turned.flip_horizontally();
    let mut counts = Board::new(turned).solve();
    counts.flip_horizontally();
    for _ in 0..5 {
        counts.rotate_60_cw();
    }
    assert!(solves(&board, &counts));
}

/// The pokes that reach cell `k` from its own flower.
fn flower_total(counts: &[usize], k: usize) -> usize {
    let ps = positions();
    let (x, y) = ps[k].as_xy();
    let (x, y) = (x as i64, y as i64);
    let mut sum = 0;
    for (j, p) in ps.iter().enumerate() {
        let (dx, dy) = (x - p.x as i64, y - p.y as i64);
        if dx.abs() <= 1 && dy.abs() <= 1 && (dx - dy).abs() <= 1 {
            sum += counts[j];
        }
    }
    sum
}
