//! The layered solver of the 4x4 arrow puzzle.

use vstd::multiset::Multiset;
use vstd::prelude::*;

use crate::puzzle::{
    all_same, board_poked, board_poked_all, board_turns, poke_number, poke_of, row_poked,
    row_poked_all, row_turns, turns, turns_column, Arrow, Board, BoardPoke, Row, RowPoke,
};

verus! {

/// The number of board pokes in `m` that turn the arrow at column `x` of row `y`.
pub open spec fn weight(m: Multiset<BoardPoke>, x: int, y: int) -> int {
        (if turns_column(poke_of(0), x) && turns_column(poke_of(0), y) { m.count(BoardPoke(poke_of(0), poke_of(0))) as int } else { 0 }) +
        (if turns_column(poke_of(0), x) && turns_column(poke_of(1), y) { m.count(BoardPoke(poke_of(0), poke_of(1))) as int } else { 0 }) +
        (if turns_column(poke_of(0), x) && turns_column(poke_of(2), y) { m.count(BoardPoke(poke_of(0), poke_of(2))) as int } else { 0 }) +
        (if turns_column(poke_of(0), x) && turns_column(poke_of(3), y) { m.count(BoardPoke(poke_of(0), poke_of(3))) as int } else { 0 }) +
        (if turns_column(poke_of(1), x) && turns_column(poke_of(0), y) { m.count(BoardPoke(poke_of(1), poke_of(0))) as int } else { 0 }) +
        (if turns_column(poke_of(1), x) && turns_column(poke_of(1), y) { m.count(BoardPoke(poke_of(1), poke_of(1))) as int } else { 0 }) +
        (if turns_column(poke_of(1), x) && turns_column(poke_of(2), y) { m.count(BoardPoke(poke_of(1), poke_of(2))) as int } else { 0 }) +
        (if turns_column(poke_of(1), x) && turns_column(poke_of(3), y) { m.count(BoardPoke(poke_of(1), poke_of(3))) as int } else { 0 }) +
        (if turns_column(poke_of(2), x) && turns_column(poke_of(0), y) { m.count(BoardPoke(poke_of(2), poke_of(0))) as int } else { 0 }) +
        (if turns_column(poke_of(2), x) && turns_column(poke_of(1), y) { m.count(BoardPoke(poke_of(2), poke_of(1))) as int } else { 0 }) +
        (if turns_column(poke_of(2), x) && turns_column(poke_of(2), y) { m.count(BoardPoke(poke_of(2), poke_of(2))) as int } else { 0 }) +
        (if turns_column(poke_of(2), x) && turns_column(poke_of(3), y) { m.count(BoardPoke(poke_of(2), poke_of(3))) as int } else { 0 }) +
        (if turns_column(poke_of(3), x) && turns_column(poke_of(0), y) { m.count(BoardPoke(poke_of(3), poke_of(0))) as int } else { 0 }) +
        (if turns_column(poke_of(3), x) && turns_column(poke_of(1), y) { m.count(BoardPoke(poke_of(3), poke_of(1))) as int } else { 0 }) +
        (if turns_column(poke_of(3), x) && turns_column(poke_of(2), y) { m.count(BoardPoke(poke_of(3), poke_of(2))) as int } else { 0 }) +
        (if turns_column(poke_of(3), x) && turns_column(poke_of(3), y) { m.count(BoardPoke(poke_of(3), poke_of(3))) as int } else { 0 })
}

/// The quarter turns of a board after each poke of `m`, in any order.
pub open spec fn board_applied(s: Seq<Seq<int>>, m: Multiset<BoardPoke>) -> Seq<Seq<int>> {
    Seq::new(4, |y: int| Seq::new(4, |x: int| (s[y][x] + weight(m, x, y)) % 4))
}

/// Whether a board holds four rows of four quarter turns in `[0, 4)`.
pub open spec fn board_in_range(s: Seq<Seq<int>>) -> bool {
    &&& s.len() == 4
    &&& forall|y: int| 0 <= y < 4 ==> #[trigger] s[y].len() == 4
    &&& forall|y: int, x: int| 0 <= y < 4 && 0 <= x < 4 ==> 0 <= #[trigger] s[y][x] < 4
}

proof fn lemma_weight_insert(m: Multiset<BoardPoke>, q: BoardPoke, x: int, y: int)
    ensures
        weight(m.insert(q), x, y) == weight(m, x, y) + if turns_column(q.0, x) && turns_column(q.1, y) {
            1int
        } else {
            0int
        },
{
    assert(q == BoardPoke(poke_of(poke_number(q.0)), poke_of(poke_number(q.1))));
}

proof fn lemma_weight_empty(x: int, y: int)
    ensures
        weight(Multiset::<BoardPoke>::empty(), x, y) == 0,
{
}

proof fn lemma_mod4_step(v: int)
    ensures
        (v % 4 + 1) % 4 == (v + 1) % 4,
{
    vstd::arithmetic::div_mod::lemma_add_mod_noop(v, 1, 4);
    vstd::arithmetic::div_mod::lemma_mod_twice(v, 4);
}

/// Poking a board one poke after another gives what the pokes' counts give: the order of
/// the pokes does not matter.
pub proof fn lemma_board_pokes_apply_counts(s: Seq<Seq<int>>, ps: Seq<BoardPoke>)
    requires
        board_in_range(s),
    ensures
        board_poked_all(s, ps) == board_applied(s, ps.to_multiset()),
    decreases ps.len(),
{
    if ps.len() == 0 {
        vstd::seq_lib::to_multiset_len(ps);
        vstd::multiset::lemma_multiset_empty_len(ps.to_multiset());
        assert(ps.to_multiset() =~= Multiset::<BoardPoke>::empty());
        assert forall|y: int| 0 <= y < 4 implies #[trigger] board_applied(s, ps.to_multiset())[y] == s[y] by {
            assert forall|x: int| 0 <= x < 4 implies #[trigger] board_applied(s, ps.to_multiset())[y][x] == s[y][x] by {
                lemma_weight_empty(x, y);
            }
            assert(board_applied(s, ps.to_multiset())[y] =~= s[y]);
        }
        assert(board_applied(s, ps.to_multiset()) =~= s);
    } else {
        let rest = ps.drop_last();
        let q = ps.last();
        lemma_board_pokes_apply_counts(s, rest);
        assert(rest.push(q) == ps);
        vstd::seq_lib::to_multiset_build(rest, q);
        let m = rest.to_multiset();
        let before = board_applied(s, m);
        assert forall|y: int| 0 <= y < 4 implies #[trigger] board_poked(before, q)[y] == board_applied(s, m.insert(q))[y] by {
            assert forall|x: int| 0 <= x < 4 implies #[trigger] board_poked(before, q)[y][x] == board_applied(s, m.insert(q))[y][x] by {
                lemma_weight_insert(m, q, x, y);
                lemma_mod4_step(s[y][x] + weight(m, x, y));
            }
            assert(board_poked(before, q)[y] =~= board_applied(s, m.insert(q))[y]);
        }
        assert(board_poked(before, q) =~= board_applied(s, m.insert(q)));
    }
}

proof fn lemma_weight_mod(m: Multiset<BoardPoke>, m2: Multiset<BoardPoke>, v: int, x: int, y: int)
    requires
        forall|q: BoardPoke| #[trigger] m2.count(q) == m.count(q) % 4,
    ensures
        (v + weight(m2, x, y)) % 4 == (v + weight(m, x, y)) % 4,
{
    let t0 = if turns_column(poke_of(0), x) && turns_column(poke_of(0), y) { m.count(BoardPoke(poke_of(0), poke_of(0))) as int } else { 0 };
    let t1 = if turns_column(poke_of(0), x) && turns_column(poke_of(1), y) { m.count(BoardPoke(poke_of(0), poke_of(1))) as int } else { 0 };
    let t2 = if turns_column(poke_of(0), x) && turns_column(poke_of(2), y) { m.count(BoardPoke(poke_of(0), poke_of(2))) as int } else { 0 };
    let t3 = if turns_column(poke_of(0), x) && turns_column(poke_of(3), y) { m.count(BoardPoke(poke_of(0), poke_of(3))) as int } else { 0 };
    let t4 = if turns_column(poke_of(1), x) && turns_column(poke_of(0), y) { m.count(BoardPoke(poke_of(1), poke_of(0))) as int } else { 0 };
    let t5 = if turns_column(poke_of(1), x) && turns_column(poke_of(1), y) { m.count(BoardPoke(poke_of(1), poke_of(1))) as int } else { 0 };
    let t6 = if turns_column(poke_of(1), x) && turns_column(poke_of(2), y) { m.count(BoardPoke(poke_of(1), poke_of(2))) as int } else { 0 };
    let t7 = if turns_column(poke_of(1), x) && turns_column(poke_of(3), y) { m.count(BoardPoke(poke_of(1), poke_of(3))) as int } else { 0 };
    let t8 = if turns_column(poke_of(2), x) && turns_column(poke_of(0), y) { m.count(BoardPoke(poke_of(2), poke_of(0))) as int } else { 0 };
    let t9 = if turns_column(poke_of(2), x) && turns_column(poke_of(1), y) { m.count(BoardPoke(poke_of(2), poke_of(1))) as int } else { 0 };
    let t10 = if turns_column(poke_of(2), x) && turns_column(poke_of(2), y) { m.count(BoardPoke(poke_of(2), poke_of(2))) as int } else { 0 };
    let t11 = if turns_column(poke_of(2), x) && turns_column(poke_of(3), y) { m.count(BoardPoke(poke_of(2), poke_of(3))) as int } else { 0 };
    let t12 = if turns_column(poke_of(3), x) && turns_column(poke_of(0), y) { m.count(BoardPoke(poke_of(3), poke_of(0))) as int } else { 0 };
    let t13 = if turns_column(poke_of(3), x) && turns_column(poke_of(1), y) { m.count(BoardPoke(poke_of(3), poke_of(1))) as int } else { 0 };
    let t14 = if turns_column(poke_of(3), x) && turns_column(poke_of(2), y) { m.count(BoardPoke(poke_of(3), poke_of(2))) as int } else { 0 };
    let t15 = if turns_column(poke_of(3), x) && turns_column(poke_of(3), y) { m.count(BoardPoke(poke_of(3), poke_of(3))) as int } else { 0 };
    let k = t0 / 4 + t1 / 4 + t2 / 4 + t3 / 4 + t4 / 4 + t5 / 4 + t6 / 4 + t7 / 4 + t8 / 4 + t9 / 4 + t10 / 4 + t11 / 4 + t12 / 4 + t13 / 4 + t14 / 4 + t15 / 4;
    assert(weight(m, x, y) == t0 + t1 + t2 + t3 + t4 + t5 + t6 + t7 + t8 + t9 + t10 + t11 + t12 + t13 + t14 + t15);
    assert(weight(m2, x, y) == t0 % 4 + t1 % 4 + t2 % 4 + t3 % 4 + t4 % 4 + t5 % 4 + t6 % 4 + t7 % 4 + t8 % 4 + t9 % 4 + t10 % 4 + t11 % 4 + t12 % 4 + t13 % 4 + t14 % 4 + t15 % 4);
    assert(weight(m2, x, y) == weight(m, x, y) - 4 * k);
    vstd::arithmetic::div_mod::lemma_mod_multiples_vanish(-k, v + weight(m, x, y), 4);
}

/// Counts that agree mod 4 give the same board.
pub proof fn lemma_board_applied_mod(s: Seq<Seq<int>>, m: Multiset<BoardPoke>, m2: Multiset<BoardPoke>)
    requires
        forall|q: BoardPoke| #[trigger] m2.count(q) == m.count(q) % 4,
    ensures
        board_applied(s, m2) == board_applied(s, m),
{
    assert forall|y: int| 0 <= y < 4 implies #[trigger] board_applied(s, m2)[y] == board_applied(s, m)[y] by {
        assert forall|x: int| 0 <= x < 4 implies #[trigger] board_applied(s, m2)[y][x] == board_applied(s, m)[y][x] by {
            lemma_weight_mod(m, m2, s[y][x], x, y);
        }
        assert(board_applied(s, m2)[y] =~= board_applied(s, m)[y]);
    }
    assert(board_applied(s, m2) =~= board_applied(s, m));
}

/// A board whose sixteen arrows all point up.
pub open spec fn all_up() -> Seq<Seq<int>> {
    Seq::new(4, |y: int| Seq::new(4, |x: int| 0int))
}

/// Whether `ps` is ordered by row, then by column.
pub open spec fn sorted_by_row(ps: Seq<BoardPoke>) -> bool {
    forall|i: int, j: int| 0 <= i < j < ps.len() ==> poke_key(#[trigger] ps[i]) <= poke_key(#[trigger] ps[j])
}

/// The position of a board poke in row-then-column order.
pub open spec fn poke_key(q: BoardPoke) -> int {
    4 * poke_number(q.1) + poke_number(q.0)
}

/// The row pokes `ps` applied to the rows that `n` picks.
pub open spec fn at_row(ps: Seq<RowPoke>, n: RowPoke) -> Seq<BoardPoke> {
    ps.map_values(|p: RowPoke| BoardPoke(p, n))
}

/// Five pokes that turn the last row by the row poke `p` and leave the others as they are.
pub open spec fn last_row_block(p: RowPoke) -> Seq<BoardPoke> {
    seq![BoardPoke(p, RowPoke::D), BoardPoke(p, RowPoke::A), BoardPoke(p, RowPoke::B), BoardPoke(p, RowPoke::B), BoardPoke(p, RowPoke::B)]
}

pub open spec fn last_row_pokes(ps: Seq<RowPoke>) -> Seq<BoardPoke>
    decreases ps.len(),
{
    if ps.len() == 0 {
        Seq::empty()
    } else {
        last_row_pokes(ps.drop_last()) + last_row_block(ps.last())
    }
}

/// Two pokes that turn every arrow of the rows that `p` picks.
pub open spec fn whole_rows_block(p: RowPoke) -> Seq<BoardPoke> {
    seq![BoardPoke(RowPoke::A, p), BoardPoke(RowPoke::D, p)]
}

pub open spec fn whole_rows_pokes(ps: Seq<RowPoke>) -> Seq<BoardPoke>
    decreases ps.len(),
{
    if ps.len() == 0 {
        Seq::empty()
    } else {
        whole_rows_pokes(ps.drop_last()) + whole_rows_block(ps.last())
    }
}

/// Four pokes that turn every arrow of the board once.
pub open spec fn corners() -> Seq<BoardPoke> {
    seq![BoardPoke(RowPoke::A, RowPoke::A), BoardPoke(RowPoke::D, RowPoke::A), BoardPoke(RowPoke::A, RowPoke::D), BoardPoke(RowPoke::D, RowPoke::D)]
}

pub open spec fn corners_times(n: nat) -> Seq<BoardPoke>
    decreases n,
{
    if n == 0 {
        Seq::empty()
    } else {
        corners_times((n - 1) as nat) + corners()
    }
}

pub proof fn lemma_board_poked_all_append(s: Seq<Seq<int>>, a: Seq<BoardPoke>, b: Seq<BoardPoke>)
    ensures
        board_poked_all(s, a + b) == board_poked_all(board_poked_all(s, a), b),
    decreases b.len(),
{
    if b.len() == 0 {
        assert(a + b =~= a);
    } else {
        lemma_board_poked_all_append(s, a, b.drop_last());
        assert((a + b).drop_last() =~= a + b.drop_last());
        assert((a + b).last() == b.last());
    }
}

proof fn lemma_board_poked_range(s: Seq<Seq<int>>, q: BoardPoke)
    requires
        board_in_range(s),
    ensures
        board_in_range(board_poked(s, q)),
{
}

proof fn lemma_board_poked_all_range(s: Seq<Seq<int>>, ps: Seq<BoardPoke>)
    requires
        board_in_range(s),
    ensures
        board_in_range(board_poked_all(s, ps)),
    decreases ps.len(),
{
    if ps.len() > 0 {
        lemma_board_poked_all_range(s, ps.drop_last());
        lemma_board_poked_range(board_poked_all(s, ps.drop_last()), ps.last());
    }
}

/// Row pokes applied to the rows that `n` picks poke each of those rows alike.
proof fn lemma_at_row(s: Seq<Seq<int>>, ps: Seq<RowPoke>, n: RowPoke)
    requires
        board_in_range(s),
    ensures
        board_poked_all(s, at_row(ps, n)).len() == 4,
        forall|y: int|
            0 <= y < 4 ==> #[trigger] board_poked_all(s, at_row(ps, n))[y] == if turns_column(n, y) {
                row_poked_all(s[y], ps)
            } else {
                s[y]
            },
    decreases ps.len(),
{
    if ps.len() > 0 {
        lemma_at_row(s, ps.drop_last(), n);
        assert(at_row(ps, n).drop_last() =~= at_row(ps.drop_last(), n));
    } else {
        assert(at_row(ps, n) =~= Seq::<BoardPoke>::empty());
    }
}

proof fn lemma_four_turns(v: int)
    requires
        0 <= v < 4,
    ensures
        (((((v + 1) % 4) + 1) % 4 + 1) % 4 + 1) % 4 == v,
{
}

/// The five-poke block turns the last row once and the others four times, which leaves
/// them as they were.
proof fn lemma_last_row_block(s: Seq<Seq<int>>, p: RowPoke)
    requires
        board_in_range(s),
    ensures
        board_poked_all(s, last_row_block(p)) == s.update(3, row_poked(s[3], p)),
{
    reveal_with_fuel(board_poked_all, 6);
    let b = last_row_block(p);
    assert(b.drop_last().drop_last().drop_last().drop_last().drop_last() =~= Seq::<BoardPoke>::empty());
    let r = board_poked_all(s, b);
    assert forall|y: int| 0 <= y < 4 implies #[trigger] r[y] == s.update(3, row_poked(s[3], p))[y] by {
        assert forall|x: int| 0 <= x < 4 implies #[trigger] r[y][x] == s.update(3, row_poked(s[3], p))[y][x] by {
            lemma_four_turns(s[y][x]);
        }
        assert(r[y] =~= s.update(3, row_poked(s[3], p))[y]);
    }
    assert(r =~= s.update(3, row_poked(s[3], p)));
}

proof fn lemma_last_row_pokes(s: Seq<Seq<int>>, ps: Seq<RowPoke>)
    requires
        board_in_range(s),
    ensures
        board_poked_all(s, last_row_pokes(ps)) == s.update(3, row_poked_all(s[3], ps)),
    decreases ps.len(),
{
    if ps.len() == 0 {
        assert(s.update(3, s[3]) =~= s);
    } else {
        lemma_last_row_pokes(s, ps.drop_last());
        lemma_board_poked_all_append(s, last_row_pokes(ps.drop_last()), last_row_block(ps.last()));
        lemma_board_poked_all_range(s, last_row_pokes(ps.drop_last()));
        let mid = s.update(3, row_poked_all(s[3], ps.drop_last()));
        lemma_last_row_block(mid, ps.last());
        assert(mid.update(3, row_poked(mid[3], ps.last())) =~= s.update(3, row_poked_all(s[3], ps)));
    }
}

/// Whether every row holds one value throughout, that of the column `c`.
pub open spec fn rows_follow(s: Seq<Seq<int>>, c: Seq<int>) -> bool {
    &&& s.len() == 4
    &&& c.len() == 4
    &&& forall|y: int| 0 <= y < 4 ==> #[trigger] s[y].len() == 4
    &&& forall|y: int, x: int| 0 <= y < 4 && 0 <= x < 4 ==> #[trigger] s[y][x] == c[y]
}

proof fn lemma_whole_rows_pokes(s: Seq<Seq<int>>, c: Seq<int>, ps: Seq<RowPoke>)
    requires
        rows_follow(s, c),
    ensures
        rows_follow(board_poked_all(s, whole_rows_pokes(ps)), row_poked_all(c, ps)),
    decreases ps.len(),
{
    if ps.len() > 0 {
        lemma_whole_rows_pokes(s, c, ps.drop_last());
        let mid = board_poked_all(s, whole_rows_pokes(ps.drop_last()));
        lemma_board_poked_all_append(s, whole_rows_pokes(ps.drop_last()), whole_rows_block(ps.last()));
        reveal_with_fuel(board_poked_all, 3);
        let b = whole_rows_block(ps.last());
        assert(b.drop_last().drop_last() =~= Seq::<BoardPoke>::empty());
    }
}

/// Every corner block turns each arrow once.
proof fn lemma_corners(s: Seq<Seq<int>>, v: int, n: nat)
    requires
        rows_follow(s, seq![v, v, v, v]),
        0 <= v < 4,
    ensures
        rows_follow(board_poked_all(s, corners_times(n)), seq![(v + n) % 4, (v + n) % 4, (v + n) % 4, (v + n) % 4]),
    decreases n,
{
    if n > 0 {
        lemma_corners(s, v, (n - 1) as nat);
        let w = (v + n - 1) % 4;
        let mid = board_poked_all(s, corners_times((n - 1) as nat));
        lemma_board_poked_all_append(s, corners_times((n - 1) as nat), corners());
        reveal_with_fuel(board_poked_all, 5);
        assert(corners().drop_last().drop_last().drop_last().drop_last() =~= Seq::<BoardPoke>::empty());
        lemma_mod4_step(v + n - 1);
    } else {
        assert(seq![v, v, v, v] =~= seq![(v + n) % 4, (v + n) % 4, (v + n) % 4, (v + n) % 4]);
    }
}

proof fn lemma_empty_to_multiset<A>(s: Seq<A>)
    requires
        s.len() == 0,
    ensures
        s.to_multiset() =~= Multiset::<A>::empty(),
{
    vstd::seq_lib::to_multiset_len(s);
    vstd::multiset::lemma_multiset_empty_len(s.to_multiset());
}

fn arrow_lut_index(a: &Arrow) -> (r: u8)
    ensures
        r as int == turns(*a),
{
    match a {
        Arrow::Up => 0,
        Arrow::Right => 1,
        Arrow::Down => 2,
        Arrow::Left => 3,
    }
}

/// The number of a row among all 256 rows: its arrows as base-4 digits, the first
/// arrow the least significant.
pub fn row_lut_index(r: &Row) -> (i: u8)
    ensures
        i as int == row_turns(*r)[0] + 4 * row_turns(*r)[1] + 16 * row_turns(*r)[2] + 64 * row_turns(
            *r,
        )[3],
{
    let a = arrow_lut_index(&r.0[0]);
    let b = arrow_lut_index(&r.0[1]);
    let c = arrow_lut_index(&r.0[2]);
    let d = arrow_lut_index(&r.0[3]);
    a + 4 * b + 16 * c + 64 * d
}

/// A shortest sequence of pokes that aligns the row, in the order of application.
fn pokes_to_align(r: &Row) -> (ps: Vec<RowPoke>)
    ensures
        all_same(row_poked_all(row_turns(*r), ps@)),
        forall|qs: Seq<RowPoke>|
            qs.len() < ps@.len() ==> !all_same(#[trigger] row_poked_all(row_turns(*r), qs)),
{
    let found = r.pokes_to_align();
    let mut ps: Vec<RowPoke> = Vec::new();
    let mut i: usize = found.len();
    while i > 0
        invariant
            i <= found@.len(),
            ps@ == found@.subrange(i as int, found@.len() as int).reverse(),
        decreases i,
    {
        i -= 1;
        ps.push(found[i]);
        assert(ps@ =~= found@.subrange(i as int, found@.len() as int).reverse());
    }
    assert(found@.subrange(0, found@.len() as int) =~= found@);
    ps
}

fn board_pokes_at_nth_row(n: RowPoke, ps: &[RowPoke]) -> (r: Vec<BoardPoke>)
    ensures
        r@ == at_row(ps@, n),
{
    let mut r: Vec<BoardPoke> = Vec::new();
    let mut i: usize = 0;
    while i < ps.len()
        invariant
            i <= ps@.len(),
            r@ == at_row(ps@.subrange(0, i as int), n),
        decreases ps@.len() - i,
    {
        r.push(BoardPoke(ps[i], n));
        i += 1;
        assert(r@ =~= at_row(ps@.subrange(0, i as int), n));
    }
    assert(ps@.subrange(0, ps@.len() as int) =~= ps@);
    r
}

fn first_column_as_row(b: &Board) -> (r: Row)
    ensures
        row_turns(r) == seq![
            board_turns(*b)[0][0],
            board_turns(*b)[1][0],
            board_turns(*b)[2][0],
            board_turns(*b)[3][0],
        ],
{
    let r = Row([b.0[0].0[0], b.0[1].0[0], b.0[2].0[0], b.0[3].0[0]]);
    assert(row_turns(r) =~= seq![
        board_turns(*b)[0][0],
        board_turns(*b)[1][0],
        board_turns(*b)[2][0],
        board_turns(*b)[3][0],
    ]);
    r
}

/// The board poke with row number `y` and column number `x`.
fn board_poke_at(x: usize, y: usize) -> (q: BoardPoke)
    requires
        x < 4,
        y < 4,
    ensures
        poke_number(q.0) == x,
        poke_number(q.1) == y,
        q == BoardPoke(poke_of(x as int), poke_of(y as int)),
{
    let px = match x {
        0 => RowPoke::A,
        1 => RowPoke::B,
        2 => RowPoke::C,
        _ => RowPoke::D,
    };
    let py = match y {
        0 => RowPoke::A,
        1 => RowPoke::B,
        2 => RowPoke::C,
        _ => RowPoke::D,
    };
    BoardPoke(px, py)
}

/// The pokes with each repeat of four at one place dropped, ordered by row, then column.
fn remove_unnecessary_pokes(ps: &[BoardPoke]) -> (r: Vec<BoardPoke>)
    ensures
        forall|q: BoardPoke| #[trigger] r@.to_multiset().count(q) == ps@.to_multiset().count(q) % 4,
        sorted_by_row(r@),
{
    let mut counts: Vec<usize> = vec![0, 0, 0, 0, 0, 0, 0, 0, 0, 0, 0, 0, 0, 0, 0, 0];
    let mut i: usize = 0;
    proof {
        lemma_empty_to_multiset(ps@.subrange(0, 0));
        assert forall|q: BoardPoke| #[trigger] ps@.subrange(0, 0).to_multiset().count(q) == counts@[poke_key(q)] as nat by {
            assert(0 <= poke_key(q) < 16);
        }
    }
    while i < ps.len()
        invariant
            i <= ps@.len(),
            counts@.len() == 16,
            forall|k: int| 0 <= k < 16 ==> #[trigger] counts@[k] <= i,
            forall|q: BoardPoke| #[trigger] ps@.subrange(0, i as int).to_multiset().count(q) == counts@[poke_key(q)] as nat,
        decreases ps@.len() - i,
    {
        let q = ps[i];
        let k = (4 * u8::from(q.1) + u8::from(q.0)) as usize;
        counts.set(k, counts[k] + 1);
        proof {
            assert(ps@.subrange(0, i + 1) =~= ps@.subrange(0, i as int).push(q));
            vstd::seq_lib::to_multiset_build(ps@.subrange(0, i as int), q);
            assert forall|q2: BoardPoke| #[trigger] ps@.subrange(0, i + 1).to_multiset().count(q2) == counts@[poke_key(q2)] as nat by {
                if poke_key(q2) == poke_key(q) {
                    assert(q2 == q);
                }
            }
        }
        i += 1;
    }
    assert(ps@.subrange(0, ps@.len() as int) =~= ps@);
    let mut r: Vec<BoardPoke> = Vec::new();
    let mut k: usize = 0;
    proof {
        lemma_empty_to_multiset(r@);
    }
    while k < 16
        invariant
            k <= 16,
            counts@.len() == 16,
            forall|q: BoardPoke| #[trigger] ps@.to_multiset().count(q) == counts@[poke_key(q)] as nat,
            forall|q: BoardPoke| #[trigger] r@.to_multiset().count(q) == if poke_key(q) < k {
                counts@[poke_key(q)] as nat % 4
            } else {
                0
            },
            sorted_by_row(r@),
            forall|j: int| 0 <= j < r@.len() ==> poke_key(#[trigger] r@[j]) < k,
        decreases 16 - k,
    {
        let q = board_poke_at(k % 4, k / 4);
        let n = counts[k] % 4;
        let mut m: usize = 0;
        while m < n
            invariant
                m <= n,
                k < 16,
                poke_key(q) == k,
                forall|q2: BoardPoke| #[trigger] r@.to_multiset().count(q2) == if poke_key(q2) < k {
                    counts@[poke_key(q2)] as nat % 4
                } else if q2 == q {
                    m as nat
                } else {
                    0
                },
                sorted_by_row(r@),
                forall|j: int| 0 <= j < r@.len() ==> poke_key(#[trigger] r@[j]) <= k,
            decreases n - m,
        {
            proof {
                vstd::seq_lib::to_multiset_build(r@, q);
                assert forall|q2: BoardPoke| poke_key(q2) == k implies q2 == q by {
                    assert(q2 == BoardPoke(poke_of(poke_number(q2.0)), poke_of(poke_number(q2.1))));
                }
            }
            r.push(q);
            m += 1;
        }
        proof {
            assert forall|q2: BoardPoke| poke_key(q2) == k implies q2 == q by {
                assert(q2 == BoardPoke(poke_of(poke_number(q2.0)), poke_of(poke_number(q2.1))));
            }
        }
        k += 1;
    }
    proof {
        assert forall|q: BoardPoke| #[trigger] r@.to_multiset().count(q) == ps@.to_multiset().count(q) % 4 by {
            assert(poke_key(q) < 16);
        }
    }
    r
}

proof fn lemma_board_turns_range(b: Board)
    ensures
        board_in_range(board_turns(b)),
{
    assert forall|y: int| 0 <= y < 4 implies #[trigger] board_turns(b)[y].len() == 4 by {
        assert(board_turns(b)[y] == row_turns(b.0@[y]));
    }
    assert forall|y: int, x: int| 0 <= y < 4 && 0 <= x < 4 implies 0 <= #[trigger] board_turns(b)[y][x] < 4 by {
        assert(board_turns(b)[y] == row_turns(b.0@[y]));
    }
}

/// Pokes that turn every arrow of the board up, each place poked at most three times,
/// ordered by row, then column. The rows are aligned from the top down, each by poking the
/// row below it; the last row by pokes that leave the others as they are; then all rows
/// are brought to one value through the first column, and that value is turned up.
pub fn pokes_to_align_board(board: &Board) -> (r: Vec<BoardPoke>)
    ensures
        board_poked_all(board_turns(*board), r@) == all_up(),
        sorted_by_row(r@),
        forall|q: BoardPoke| #[trigger] r@.to_multiset().count(q) <= 3,
{
    let ghost s = board_turns(*board);
    proof {
        lemma_board_turns_range(*board);
    }
    let mut board_pokes: Vec<BoardPoke> = Vec::new();

    let row_a = board.0[0];
    let ra = pokes_to_align(&row_a);
    let mut pokes = board_pokes_at_nth_row(RowPoke::B, ra.as_slice());
    let board1 = board.poke_many(pokes.as_slice());
    proof {
        lemma_at_row(s, ra@, RowPoke::B);
        assert(board_turns(board1) == board_poked_all(s, board_pokes@ + pokes@)) by {
            assert(board_pokes@ + pokes@ =~= pokes@);
        }
        lemma_board_turns_range(board1);
    }
    board_pokes.append(&mut pokes);
    let ghost b1 = board_turns(board1);

    let row_b = board1.0[1];
    let rb = pokes_to_align(&row_b);
    let mut pokes = board_pokes_at_nth_row(RowPoke::C, rb.as_slice());
    let board2 = board1.poke_many(pokes.as_slice());
    proof {
        lemma_at_row(b1, rb@, RowPoke::C);
        lemma_board_poked_all_append(s, board_pokes@, pokes@);
        lemma_board_turns_range(board2);
    }
    board_pokes.append(&mut pokes);
    let ghost b2 = board_turns(board2);

    let row_c = board2.0[2];
    let rc = pokes_to_align(&row_c);
    let mut pokes = board_pokes_at_nth_row(RowPoke::D, rc.as_slice());
    let board3 = board2.poke_many(pokes.as_slice());
    proof {
        lemma_at_row(b2, rc@, RowPoke::D);
        lemma_board_poked_all_append(s, board_pokes@, pokes@);
        lemma_board_turns_range(board3);
    }
    board_pokes.append(&mut pokes);
    let ghost b3 = board_turns(board3);

    let row_d = board3.0[3];
    let rd = pokes_to_align(&row_d);
    let mut pokes: Vec<BoardPoke> = Vec::new();
    let mut i: usize = 0;
    while i < rd.len()
        invariant
            i <= rd@.len(),
            pokes@ == last_row_pokes(rd@.subrange(0, i as int)),
        decreases rd@.len() - i,
    {
        let p = rd[i];
        pokes.push(BoardPoke(p, RowPoke::D));
        pokes.push(BoardPoke(p, RowPoke::A));
        pokes.push(BoardPoke(p, RowPoke::B));
        pokes.push(BoardPoke(p, RowPoke::B));
        pokes.push(BoardPoke(p, RowPoke::B));
        proof {
            assert(rd@.subrange(0, i + 1).drop_last() =~= rd@.subrange(0, i as int));
            assert(pokes@ =~= last_row_pokes(rd@.subrange(0, i + 1)));
        }
        i += 1;
    }
    assert(rd@.subrange(0, rd@.len() as int) =~= rd@);
    let board4 = board3.poke_many(pokes.as_slice());
    proof {
        lemma_last_row_pokes(b3, rd@);
        lemma_board_poked_all_append(s, board_pokes@, pokes@);
        lemma_board_turns_range(board4);
    }
    board_pokes.append(&mut pokes);
    let ghost b4 = board_turns(board4);

    let column = first_column_as_row(&board4);
    let rcol = pokes_to_align(&column);
    let mut pokes: Vec<BoardPoke> = Vec::new();
    let mut i: usize = 0;
    while i < rcol.len()
        invariant
            i <= rcol@.len(),
            pokes@ == whole_rows_pokes(rcol@.subrange(0, i as int)),
        decreases rcol@.len() - i,
    {
        let p = rcol[i];
        pokes.push(BoardPoke(RowPoke::A, p));
        pokes.push(BoardPoke(RowPoke::D, p));
        proof {
            assert(rcol@.subrange(0, i + 1).drop_last() =~= rcol@.subrange(0, i as int));
            assert(pokes@ =~= whole_rows_pokes(rcol@.subrange(0, i + 1)));
        }
        i += 1;
    }
    assert(rcol@.subrange(0, rcol@.len() as int) =~= rcol@);
    let board5 = board4.poke_many(pokes.as_slice());
    proof {
        let col = row_turns(column);
        assert(all_same(b1[0]));
        assert(all_same(b2[1]));
        assert(b2[0] == b1[0]);
        assert(all_same(b3[2]));
        assert(b3[0] == b1[0] && b3[1] == b2[1]);
        assert(all_same(b4[3]));
        assert(b4[0] == b1[0] && b4[1] == b2[1] && b4[2] == b3[2]);
        assert(rows_follow(b4, col));
        lemma_whole_rows_pokes(b4, col, rcol@);
        lemma_board_poked_all_append(s, board_pokes@, pokes@);
    }
    board_pokes.append(&mut pokes);
    let ghost b5 = board_turns(board5);

    let d = board5.0[0].0[0].distance_to(Arrow::Up);
    let mut pokes: Vec<BoardPoke> = Vec::new();
    let mut j: u8 = 0;
    while j < d
        invariant
            j <= d,
            pokes@ == corners_times(j as nat),
        decreases d - j,
    {
        pokes.push(BoardPoke(RowPoke::A, RowPoke::A));
        pokes.push(BoardPoke(RowPoke::D, RowPoke::A));
        pokes.push(BoardPoke(RowPoke::A, RowPoke::D));
        pokes.push(BoardPoke(RowPoke::D, RowPoke::D));
        proof {
            assert(pokes@ =~= corners_times((j + 1) as nat));
        }
        j += 1;
    }
    proof {
        let col5 = row_poked_all(row_turns(column), rcol@);
        let w = col5[0];
        assert(b5[0][0] == w);
        assert(turns(board5.0[0].0[0]) == w);
        assert(col5 =~= seq![w, w, w, w]);
        lemma_corners(b5, w, d as nat);
        lemma_board_poked_all_append(s, board_pokes@, pokes@);
        let b6 = board_poked_all(s, board_pokes@ + pokes@);
        assert(b6 =~= all_up()) by {
            assert forall|y: int| 0 <= y < 4 implies #[trigger] b6[y] =~= all_up()[y] by {
                assert forall|x: int| 0 <= x < 4 implies #[trigger] b6[y][x] == 0 by {
                    assert(b6[y][x] == (w + d) % 4);
                }
            }
        }
    }
    board_pokes.append(&mut pokes);
    let r = remove_unnecessary_pokes(board_pokes.as_slice());
    proof {
        lemma_board_pokes_apply_counts(s, r@);
        lemma_board_pokes_apply_counts(s, board_pokes@);
        lemma_board_applied_mod(s, board_pokes@.to_multiset(), r@.to_multiset());
    }
    r
}

} // verus!
