use solve_arrow_puzzle::expert::{Arrow, Board};
use solve_arrow_puzzle::hex::Hex;
use solve_arrow_puzzle::player::{Action, Player, PlayerState, PlayerTransitionContext, TransitionError};

const SECOND: u64 = 1_000_000_000;

fn board(v: u8) -> Board {
    Board::new(Hex::from_fn(|_, _| Arrow::from_u8(v).unwrap()))
}

fn step(p: &mut Player, now: u64, b: Option<Board>) -> Result<Action, TransitionError> {
    p.transition(PlayerTransitionContext { now, board: b })
}

#[test]
fn waits_then_gives_up_without_board() {
    let mut p = Player::new(0);
    assert_eq!(step(&mut p, 10 * SECOND, None), Ok(Action::Wait));
    assert_eq!(p.state, PlayerState::WaitForBoard);
    assert_eq!(step(&mut p, 10 * SECOND + 1, None), Err(TransitionError::NoBoard(10 * SECOND + 1)));
    assert_eq!(step(&mut p, 0, None), Ok(Action::Wait));
    let mut late = Player::new(5);
    assert_eq!(step(&mut late, 4, None), Err(TransitionError::ClockWentBack));
}

#[test]
fn solves_claims_and_retries() {
    let mut p = Player::new(0);
    assert_eq!(step(&mut p, 1, Some(board(2))), Ok(Action::Solve(board(2))));
    assert_eq!(p, Player { state: PlayerState::WaitForSolvedBoard, last_transition: 1 });
    assert_eq!(step(&mut p, 1 + SECOND, Some(board(2))), Ok(Action::Wait));
    assert_eq!(step(&mut p, 2 + SECOND, Some(board(2))), Ok(Action::Solve(board(2))));
    assert_eq!(p.last_transition, 2 + SECOND);
    assert_eq!(step(&mut p, 3 + SECOND, Some(board(0))), Ok(Action::ClaimRewards));
    assert_eq!(p.state, PlayerState::WaitForUnsolvedBoard);
    assert_eq!(step(&mut p, 4 + SECOND, Some(board(0))), Ok(Action::Wait));
    assert_eq!(step(&mut p, 4 + 2 * SECOND, Some(board(0))), Err(TransitionError::NoUnsolvedBoard(SECOND + 1)));
    assert_eq!(step(&mut p, 5 + SECOND, Some(board(1))), Ok(Action::Solve(board(1))));
    assert_eq!(step(&mut p, 6 + SECOND, None), Ok(Action::Wait));
    assert_eq!(p, Player { state: PlayerState::WaitForBoard, last_transition: 6 + SECOND });
}
