//! Rotation values, boards and pokes, the layered procedure, and the search over the 12
//! symmetric framings of a board.

use vstd::prelude::*;

use crate::hex::{
    flipped, index_of, is_valid, layout, lemma_index_of_pos, lemma_pos_of_index,
    lemma_rotate_six_times_is_identity, pos_x, pos_y, position_at, rotated, rotated_n, Hex,
    Position,
};

verus! {

/// Why a byte is no rotation value.
#[derive(Debug, PartialEq, Eq, Structural)]
pub enum ArrowFromU8Error {
    /// The byte is 6 or more.
    OutOfRange(u8),
}

/// A rotation value: one of the 6 elements of the cyclic group, 0 being the aligned one.
#[derive(Debug, Clone, Copy, PartialEq, Eq, Structural)]
pub struct Arrow(u8);

impl View for Arrow {
    type V = int;

    closed spec fn view(&self) -> int {
        self.0 as int
    }
}

impl Arrow {
    #[verifier::type_invariant]
    spec fn in_range(&self) -> bool {
        self.0 < 6
    }

    /// The rotation value `x`, or an error where `x` is not below 6.
    pub fn from_u8(x: u8) -> (r: Result<Arrow, ArrowFromU8Error>)
        ensures
            match r {
                Ok(a) => x < 6 && a@ == x as int,
                Err(e) => x >= 6 && e == ArrowFromU8Error::OutOfRange(x),
            },
    {
        if x < 6 {
            Ok(Arrow(x))
        } else {
            Err(ArrowFromU8Error::OutOfRange(x))
        }
    }

    /// The rotation value as a number in `[0, 6)`.
    pub fn value(self) -> (r: u8)
        ensures
            r as int == self@,
            r < 6,
    {
        proof {
            use_type_invariant(self);
        }
        self.0
    }

    fn up() -> (r: Arrow)
        ensures
            r@ == 0,
    {
        Arrow(0)
    }

    /// Rotates by one step.
    fn rotate(&mut self)
        ensures
            final(self)@ == (old(self)@ + 1) % 6,
    {
        proof {
            use_type_invariant(&*self);
        }
        self.0 = (self.0 + 1) % 6;
    }

    /// The number of single steps that turn `self` into `other`.
    pub fn distance_to(self, other: Arrow) -> (r: usize)
        ensures
            r as int == (other@ - self@) % 6,
            r < 6,
    {
        proof {
            use_type_invariant(self);
            use_type_invariant(other);
        }
        if other.0 >= self.0 {
            (other.0 - self.0) as usize
        } else {
            (other.0 + 6 - self.0) as usize
        }
    }
}

impl TryFrom<u8> for Arrow {
    type Error = ArrowFromU8Error;

    fn try_from(x: u8) -> Result<Arrow, ArrowFromU8Error> {
        Arrow::from_u8(x)
    }
}

impl vstd::std_specs::convert::TryFromSpecImpl<u8> for Arrow {
    open spec fn obeys_try_from_spec() -> bool {
        false
    }

    open spec fn try_from_spec(x: u8) -> Result<Arrow, ArrowFromU8Error> {
        Err(ArrowFromU8Error::OutOfRange(x))
    }
}

/// Whether a poke at `(px, py)` turns the cell `(x, y)`: the cell itself and its six
/// neighbours.
pub open spec fn in_flower(px: int, py: int, x: int, y: int) -> bool {
    let dx = x - px;
    let dy = y - py;
    -1 <= dx <= 1 && -1 <= dy <= 1 && -1 <= dx - dy <= 1
}

/// Whether a poke at the cell with canonical index `p` turns the cell with index `k`.
pub open spec fn flower_at(p: int, k: int) -> bool {
    in_flower(pos_x(p), pos_y(p), pos_x(k), pos_y(k))
}

/// The values after `n` pokes at the cell `p`.
pub open spec fn shifted(s: Seq<int>, p: int, n: int) -> Seq<int> {
    Seq::new(37, |k: int| if flower_at(p, k) { (s[k] + n) % 6 } else { s[k] })
}

/// The values after one poke at the cell `p`.
pub open spec fn poked(s: Seq<int>, p: int) -> Seq<int> {
    shifted(s, p, 1)
}

/// Whether every value lies in `[0, 6)`.
pub open spec fn in_range(s: Seq<int>) -> bool {
    s.len() == 37 && forall|k: int| 0 <= k < 37 ==> 0 <= #[trigger] s[k] < 6
}

/// The count at `(x, y)`, or 0 where `(x, y)` is no cell of the hexagon.
pub open spec fn count_at(c: Seq<int>, x: int, y: int) -> int {
    if is_valid(x, y) {
        c[index_of(x, y)]
    } else {
        0
    }
}

/// The number of pokes in `c` that turn the cell `k`: those at `k` and at its neighbours.
pub open spec fn flower_sum(c: Seq<int>, k: int) -> int {
    let x = pos_x(k);
    let y = pos_y(k);
    count_at(c, x - 1, y - 1) + count_at(c, x, y - 1) + count_at(c, x - 1, y) + count_at(c, x, y)
        + count_at(c, x + 1, y) + count_at(c, x, y + 1) + count_at(c, x + 1, y + 1)
}

/// The values after poking each cell `j` `c[j]` times.
pub open spec fn applied(s: Seq<int>, c: Seq<int>) -> Seq<int> {
    Seq::new(37, |k: int| (s[k] + flower_sum(c, k)) % 6)
}

/// Whether every value is the aligned one.
pub open spec fn all_aligned(s: Seq<int>) -> bool {
    forall|k: int| 0 <= k < 37 ==> s[k] == 0
}

/// A board: one rotation value for each cell of the hexagon.
#[derive(Debug, Clone, PartialEq, Eq)]
pub struct Board(Hex<Arrow>);

impl View for Board {
    type V = Seq<int>;

    closed spec fn view(&self) -> Seq<int> {
        self.0@.map_values(|a: Arrow| a@)
    }
}

impl Board {
    pub closed spec fn wf(&self) -> bool {
        self.0.wf() && in_range(self@)
    }

    pub fn new(arrows: Hex<Arrow>) -> (r: Board)
        requires
            arrows.wf(),
        ensures
            r.wf(),
            r@ == arrows@.map_values(|a: Arrow| a@),
    {
        let cells = arrows.enumerate();
        let mut k: usize = 0;
        while k < 37
            invariant
                k <= 37,
                arrows.wf(),
                cells@.len() == 37,
                forall|j: int| 0 <= j < 37 ==> *(#[trigger] cells@[j]).0 == arrows@[j],
                forall|j: int| 0 <= j < k ==> 0 <= (#[trigger] arrows@[j])@ < 6,
            decreases 37 - k,
        {
            let a: &Arrow = cells[k].0;
            proof {
                use_type_invariant(a);
            }
            k += 1;
        }
        Board(arrows)
    }

    /// Whether every cell holds the aligned value.
    pub fn is_solved(&self) -> (r: bool)
        requires
            self.wf(),
        ensures
            r == forall|k: int| 0 <= k < 37 ==> self@[k] == 0,
    {
        let cells = self.0.enumerate();
        let mut k: usize = 0;
        while k < 37
            invariant
                k <= 37,
                self.wf(),
                cells@.len() == 37,
                forall|j: int| 0 <= j < 37 ==> *(#[trigger] cells@[j]).0 == self.0@[j],
                forall|j: int| 0 <= j < k ==> self@[j] == 0,
            decreases 37 - k,
        {
            assert(self@[k as int] == self.0@[k as int]@);
            let a: Arrow = *cells[k].0;
            assert(self@[k as int] == a@);
            if a.value() != 0 {
                return false;
            }
            k += 1;
        }
        true
    }

    /// Turns the value at `(x, y)` by one step, where `(x, y)` is a cell of the hexagon.
    fn turn(&mut self, x: usize, y: usize)
        requires
            old(self).wf(),
        ensures
            final(self).wf(),
            final(self)@ == turned(old(self)@, x as int, y as int),
    {
        proof {
            if is_valid(x as int, y as int) {
                lemma_index_of_pos(x as int, y as int);
            }
        }
        match self.0.at_mut(x, y) {
            Some(a) => {
                a.rotate();
            },
            None => {},
        }
        proof {
            assert(self@ =~= turned(old(self)@, x as int, y as int));
        }
    }

    /// Turns the cell `p` and each of its neighbours by one step.
    fn poke(&mut self, p: Position)
        requires
            old(self).wf(),
            is_valid(p.x as int, p.y as int),
        ensures
            final(self).wf(),
            final(self)@ == poked(old(self)@, index_of(p.x as int, p.y as int)),
    {
        let ghost s0 = self@;
        let (x, y) = p.as_xy();
        if x >= 1 && y >= 1 {
            self.turn(x - 1, y - 1);
        }
        if y >= 1 {
            self.turn(x, y - 1);
        }
        if x >= 1 {
            self.turn(x - 1, y);
        }
        self.turn(x, y);
        self.turn(x + 1, y);
        self.turn(x, y + 1);
        self.turn(x + 1, y + 1);
        proof {
            lemma_poke_turns_flower(s0, x as int, y as int);
        }
    }
}

/// The values after turning the cell `(x, y)` by one step, where it is a cell of the hexagon.
pub open spec fn turned(s: Seq<int>, x: int, y: int) -> Seq<int> {
    if is_valid(x, y) {
        s.update(index_of(x, y), (s[index_of(x, y)] + 1) % 6)
    } else {
        s
    }
}

proof fn lemma_turned_cell(s: Seq<int>, x: int, y: int, k: int)
    requires
        s.len() == 37,
        0 <= k < 37,
    ensures
        turned(s, x, y).len() == 37,
        turned(s, x, y)[k] == if pos_x(k) == x && pos_y(k) == y {
            (s[k] + 1) % 6
        } else {
            s[k]
        },
{
    lemma_pos_of_index(k);
    if is_valid(x, y) {
        lemma_index_of_pos(x, y);
    }
}

#[verifier::rlimit(40)]
proof fn lemma_poke_turns_flower(s: Seq<int>, x: int, y: int)
    requires
        s.len() == 37,
        is_valid(x, y),
    ensures
        turned(
            turned(
                turned(
                    turned(turned(turned(turned(s, x - 1, y - 1), x, y - 1), x - 1, y), x, y),
                    x + 1,
                    y,
                ),
                x,
                y + 1,
            ),
            x + 1,
            y + 1,
        ) == poked(s, index_of(x, y)),
{
    let s1 = turned(s, x - 1, y - 1);
    let s2 = turned(s1, x, y - 1);
    let s3 = turned(s2, x - 1, y);
    let s4 = turned(s3, x, y);
    let s5 = turned(s4, x + 1, y);
    let s6 = turned(s5, x, y + 1);
    let s7 = turned(s6, x + 1, y + 1);
    lemma_index_of_pos(x, y);
    assert forall|k: int| 0 <= k < 37 implies #[trigger] s7[k] == poked(s, index_of(x, y))[k] by {
        lemma_turned_cell(s, x - 1, y - 1, k);
        lemma_turned_cell(s1, x, y - 1, k);
        lemma_turned_cell(s2, x - 1, y, k);
        lemma_turned_cell(s3, x, y, k);
        lemma_turned_cell(s4, x + 1, y, k);
        lemma_turned_cell(s5, x, y + 1, k);
        lemma_turned_cell(s6, x + 1, y + 1, k);
    }
    assert(s7 =~= poked(s, index_of(x, y)));
}

/// The moves of the partial solve, as canonical indices of a target cell and of the cell
/// poked to align it. Each target lies one ring further out than its poke cell, and the
/// rings are aligned from the border inwards.
pub open spec fn moves() -> Seq<(int, int)> {
    seq![
        (0, 5), (1, 6), (2, 7), (3, 8), (4, 10),
        (9, 16), (15, 22), (5, 11), (6, 12), (7, 13),
        (8, 14), (10, 17), (16, 23), (22, 28), (11, 18),
        (12, 19), (13, 20), (14, 21), (17, 24), (23, 29),
        (28, 33), (18, 25), (19, 26), (20, 27), (24, 30),
        (29, 34), (25, 31), (26, 32), (30, 35), (31, 36),
    ]
}

fn partial_solve_moves() -> (r: Vec<(usize, usize)>)
    ensures
        r@.len() == 30,
        forall|i: int|
            0 <= i < 30 ==> (#[trigger] r@[i]).0 as int == moves()[i].0 && r@[i].1 as int
                == moves()[i].1,
{
    let r: Vec<(usize, usize)> = vec![
        (0usize, 5usize), (1usize, 6usize), (2usize, 7usize), (3usize, 8usize), (4usize, 10usize),
        (9usize, 16usize), (15usize, 22usize), (5usize, 11usize), (6usize, 12usize), (7usize, 13usize),
        (8usize, 14usize), (10usize, 17usize), (16usize, 23usize), (22usize, 28usize), (11usize, 18usize),
        (12usize, 19usize), (13usize, 20usize), (14usize, 21usize), (17usize, 24usize), (23usize, 29usize),
        (28usize, 33usize), (18usize, 25usize), (19usize, 26usize), (20usize, 27usize), (24usize, 30usize),
        (29usize, 34usize), (25usize, 31usize), (26usize, 32usize), (30usize, 35usize), (31usize, 36usize),
    ];
    proof {
        assert forall|i: int|
            0 <= i < 30 implies (#[trigger] r@[i]).0 as int == moves()[i].0 && r@[i].1 as int
                == moves()[i].1 by {}
    }
    r
}

/// The counts as integers.
pub open spec fn ints(c: Seq<usize>) -> Seq<int> {
    c.map_values(|v: usize| v as int)
}

/// A board's values together with the pokes applied to it so far, per cell.
pub type SolveState = (Seq<int>, Seq<int>);

/// Pokes the cell `p` `n` times and records it.
pub open spec fn poke_n(st: SolveState, p: int, n: int) -> SolveState {
    (shifted(st.0, p, n), st.1.update(p, st.1[p] + n))
}

/// One move of the partial solve: poke the cell `p` until the cell `t` is aligned.
pub open spec fn align_step(st: SolveState, t: int, p: int) -> SolveState {
    poke_n(st, p, (0 - st.0[t]) % 6)
}

/// The state after the first `i` moves of the partial solve.
pub open spec fn after_moves(st: SolveState, i: nat) -> SolveState
    decreases i,
{
    if i == 0 {
        st
    } else {
        align_step(after_moves(st, (i - 1) as nat), moves()[i - 1].0, moves()[i - 1].1)
    }
}

/// The partial solve: all of its moves in order.
pub open spec fn partial_solve(st: SolveState) -> SolveState {
    after_moves(st, 30)
}

/// The correction of the three border cells that the partial solve leaves: pokes at the
/// four cells of the first row, counted from the values at D6, E6 and F6.
pub open spec fn fixup(st: SolveState) -> SolveState {
    let d6 = st.0[21];
    let e6 = st.0[27];
    let f6 = st.0[32];
    let a = e6 % 6 + (0 - d6) % 6;
    let b_d = (0 - e6) % 6;
    let c = if (d6 + f6) % 2 == 0 {
        0
    } else {
        3
    };
    poke_n(poke_n(poke_n(poke_n(st, 0, a), 1, b_d), 2, c), 3, b_d)
}

/// The state after the whole layered procedure on one orientation.
pub open spec fn layered(s: Seq<int>) -> SolveState {
    partial_solve(fixup(partial_solve((s, Seq::new(37, |k: int| 0int)))))
}

/// The poke counts that the layered procedure finds for one orientation, reduced mod 6.
pub open spec fn layered_counts(s: Seq<int>) -> Seq<int> {
    Seq::new(37, |k: int| layered(s).1[k] % 6)
}

proof fn lemma_poked_shifted(s: Seq<int>, p: int, n: int)
    requires
        s.len() == 37,
    ensures
        poked(shifted(s, p, n), p) == shifted(s, p, n + 1),
{
    assert(poked(shifted(s, p, n), p) =~= shifted(s, p, n + 1));
}

proof fn lemma_shifted_zero(s: Seq<int>, p: int)
    requires
        in_range(s),
    ensures
        shifted(s, p, 0) == s,
{
    assert(shifted(s, p, 0) =~= s);
}

impl Board {
    /// Pokes the cell `p` `n` times and adds `n` to its count.
    fn poke_times(&mut self, counts: &mut Hex<usize>, p: Position, n: usize)
        requires
            old(self).wf(),
            old(counts).wf(),
            is_valid(p.x as int, p.y as int),
            n < 11,
            forall|k: int| 0 <= k < 37 ==> #[trigger] old(counts)@[k] < 1000,
        ensures
            final(self).wf(),
            final(counts).wf(),
            (final(self)@, ints(final(counts)@)) == poke_n(
                (old(self)@, ints(old(counts)@)),
                index_of(p.x as int, p.y as int),
                n as int,
            ),
            forall|k: int|
                0 <= k < 37 ==> #[trigger] final(counts)@[k] <= old(counts)@[k] + n,
    {
        let ghost s0 = self@;
        let ghost c0 = counts@;
        let ghost ip = index_of(p.x as int, p.y as int);
        proof {
            lemma_index_of_pos(p.x as int, p.y as int);
            lemma_shifted_zero(s0, ip);
        }
        let mut j: usize = 0;
        while j < n
            invariant
                j <= n,
                self.wf(),
                is_valid(p.x as int, p.y as int),
                ip == index_of(p.x as int, p.y as int),
                s0.len() == 37,
                self@ == shifted(s0, ip, j as int),
            decreases n - j,
        {
            self.poke(p);
            proof {
                lemma_poked_shifted(s0, ip, j as int);
            }
            j += 1;
        }
        match counts.at_mut(p.x, p.y) {
            Some(c) => {
                *c = *c + n;
            },
            None => {},
        }
        proof {
            assert(ints(counts@) =~= ints(c0).update(ip, ints(c0)[ip] + n));
        }
    }
}

impl Board {
    /// Runs the moves of the partial solve in order, recording the pokes in `counts`.
    fn partially_solve(&mut self, counts: &mut Hex<usize>)
        requires
            old(self).wf(),
            old(counts).wf(),
            forall|k: int| 0 <= k < 37 ==> #[trigger] old(counts)@[k] <= 500,
        ensures
            final(self).wf(),
            final(counts).wf(),
            (final(self)@, ints(final(counts)@)) == partial_solve((old(self)@, ints(old(counts)@))),
            forall|k: int| 0 <= k < 37 ==> #[trigger] final(counts)@[k] <= old(counts)@[k] + 150,
    {
        let table = partial_solve_moves();
        let ghost st0 = (self@, ints(counts@));
        let ghost c0 = counts@;
        let mut i: usize = 0;
        while i < 30
            invariant
                i <= 30,
                self.wf(),
                counts.wf(),
                table@.len() == 30,
                forall|m: int|
                    0 <= m < 30 ==> (#[trigger] table@[m]).0 as int == moves()[m].0 && table@[m].1 as int
                        == moves()[m].1,
                (self@, ints(counts@)) == after_moves(st0, i as nat),
                c0.len() == 37,
                forall|k: int| 0 <= k < 37 ==> #[trigger] c0[k] <= 500,
                forall|k: int| 0 <= k < 37 ==> #[trigger] counts@[k] <= c0[k] + 5 * i,
            decreases 30 - i,
        {
            let (t, p) = table[i];
            assert(0 <= t < 37 && 0 <= p < 37);
            let tp = crate::hex::position_at(t);
            let pp = crate::hex::position_at(p);
            proof {
                lemma_pos_of_index(t as int);
                lemma_pos_of_index(p as int);
            }
            let n = match self.0.at(tp.x, tp.y) {
                Some(a) => a.distance_to(Arrow::up()),
                None => 0,
            };
            assert(self@[t as int] == self.0@[t as int]@);
            self.poke_times(counts, pp, n);
            i += 1;
        }
    }

    /// Pokes the four cells of the first row to correct the three border cells that the
    /// partial solve leaves, recording the pokes in `counts`.
    fn fix_up(&mut self, counts: &mut Hex<usize>)
        requires
            old(self).wf(),
            old(counts).wf(),
            forall|k: int| 0 <= k < 37 ==> #[trigger] old(counts)@[k] <= 900,
        ensures
            final(self).wf(),
            final(counts).wf(),
            (final(self)@, ints(final(counts)@)) == fixup((old(self)@, ints(old(counts)@))),
            forall|k: int| 0 <= k < 37 ==> #[trigger] final(counts)@[k] <= old(counts)@[k] + 40,
    {
        let d6 = self.value_at(6, 3);
        let e6 = self.value_at(6, 4);
        let f6 = self.value_at(6, 5);
        let a_poke_count = Arrow::up().distance_to(e6) + d6.distance_to(Arrow::up());
        let b_d_poke_count = e6.distance_to(Arrow::up());
        let c_poke_count: usize = if (d6.value() + f6.value()) % 2 == 0 {
            0
        } else {
            3
        };
        self.poke_times(counts, crate::hex::position_at(0), a_poke_count);
        self.poke_times(counts, crate::hex::position_at(1), b_d_poke_count);
        self.poke_times(counts, crate::hex::position_at(2), c_poke_count);
        self.poke_times(counts, crate::hex::position_at(3), b_d_poke_count);
    }

    /// The value at the cell `(x, y)` of the hexagon.
    fn value_at(&self, x: usize, y: usize) -> (r: Arrow)
        requires
            self.wf(),
            is_valid(x as int, y as int),
        ensures
            r@ == self@[index_of(x as int, y as int)],
    {
        proof {
            lemma_index_of_pos(x as int, y as int);
        }
        match self.0.at(x, y) {
            Some(a) => *a,
            None => Arrow::up(),
        }
    }
}

/// The sum of the first `n` counts.
pub open spec fn sum_upto(c: Seq<int>, n: int) -> int
    decreases n,
{
    if n <= 0 {
        0
    } else {
        sum_upto(c, n - 1) + c[n - 1]
    }
}

/// The total number of pokes in a poke-count map.
pub open spec fn cost(c: Seq<int>) -> int {
    sum_upto(c, 37)
}

/// The board seen in one of the 12 symmetric framings: mirrored or not, then turned
/// `r` times.
pub open spec fn framed<T>(s: Seq<T>, mirrored: bool, r: nat) -> Seq<T> {
    rotated_n(if mirrored { flipped(s) } else { s }, r)
}

/// Maps a poke-count map found in a framing back to the board's own frame.
pub open spec fn unframed<T>(c: Seq<T>, mirrored: bool, r: nat) -> Seq<T> {
    let back = rotated_n(c, ((6 - r) % 6) as nat);
    if mirrored {
        flipped(back)
    } else {
        back
    }
}

/// The framing of index `i`: the first six are turned `i` times, the last six are
/// mirrored and then turned `i - 6` times.
pub open spec fn framing_mirrored(i: int) -> bool {
    i >= 6
}

pub open spec fn framing_turns(i: int) -> nat {
    (i % 6) as nat
}

/// The layered solution found in framing `i`, mapped back to the board's own frame.
pub open spec fn candidate(s: Seq<int>, i: int) -> Seq<int> {
    unframed(
        layered_counts(framed(s, framing_mirrored(i), framing_turns(i))),
        framing_mirrored(i),
        framing_turns(i),
    )
}

pub proof fn lemma_rotated_map<A, B>(s: Seq<A>, f: spec_fn(A) -> B)
    requires
        s.len() == 37,
    ensures
        rotated(s.map_values(f)) == rotated(s).map_values(f),
{
    assert forall|k: int| 0 <= k < 37 implies #[trigger] rotated(s.map_values(f))[k] == rotated(
        s,
    ).map_values(f)[k] by {
        lemma_pos_of_index(k);
        lemma_index_of_pos(pos_y(k), pos_y(k) - pos_x(k) + 3);
    }
    assert(rotated(s.map_values(f)) =~= rotated(s).map_values(f));
}

pub proof fn lemma_flipped_map<A, B>(s: Seq<A>, f: spec_fn(A) -> B)
    requires
        s.len() == 37,
    ensures
        flipped(s.map_values(f)) == flipped(s).map_values(f),
{
    assert forall|k: int| 0 <= k < 37 implies #[trigger] flipped(s.map_values(f))[k] == flipped(
        s,
    ).map_values(f)[k] by {
        lemma_pos_of_index(k);
        lemma_index_of_pos(pos_y(k), pos_x(k));
    }
    assert(flipped(s.map_values(f)) =~= flipped(s).map_values(f));
}

impl Board {
    /// Mirrors the board: the value at `(x, y)` moves to `(y, x)`.
    fn flip(&mut self)
        requires
            old(self).wf(),
        ensures
            final(self).wf(),
            final(self)@ == flipped(old(self)@),
    {
        proof {
            lemma_flipped_map(self.0@, |a: Arrow| a@);
        }
        self.0.flip_horizontally();
        proof {
            assert forall|k: int| 0 <= k < 37 implies 0 <= #[trigger] self@[k] < 6 by {
                lemma_pos_of_index(k);
                lemma_index_of_pos(pos_y(k), pos_x(k));
            }
        }
    }

    /// Turns the board by 60 degrees clockwise.
    fn rotate(&mut self)
        requires
            old(self).wf(),
        ensures
            final(self).wf(),
            final(self)@ == rotated(old(self)@),
    {
        proof {
            lemma_rotated_map(self.0@, |a: Arrow| a@);
        }
        self.0.rotate_60_cw();
        proof {
            assert forall|k: int| 0 <= k < 37 implies 0 <= #[trigger] self@[k] < 6 by {
                lemma_pos_of_index(k);
                lemma_index_of_pos(pos_y(k), pos_y(k) - pos_x(k) + 3);
            }
        }
    }

    /// A board with the same values.
    fn duplicate(&self) -> (r: Board)
        requires
            self.wf(),
        ensures
            r.wf(),
            r@ == self@,
    {
        Board(self.0.duplicate())
    }

    /// The layered procedure on this orientation: the partial solve, the correction of the
    /// border cells, and the partial solve again. Returns the pokes per cell, mod 6.
    fn solve_this_orientation(self) -> (r: Hex<usize>)
        requires
            self.wf(),
        ensures
            r.wf(),
            ints(r@) == layered_counts(self@),
    {
        let ghost s0 = self@;
        let mut board = self;
        let mut counts: Hex<usize> = Hex::from_fn(|x: usize, y: usize| -> (r: usize)
            ensures
                r == 0,
            { 0 });
        assert(ints(counts@) =~= Seq::new(37, |k: int| 0int));
        board.partially_solve(&mut counts);
        board.fix_up(&mut counts);
        board.partially_solve(&mut counts);
        let ghost c3 = counts@;
        assert(ints(c3) == layered(s0).1);
        let mut k: usize = 0;
        while k < 37
            invariant
                k <= 37,
                counts.wf(),
                c3.len() == 37,
                forall|j: int| 0 <= j < k ==> #[trigger] counts@[j] as int == c3[j] % 6,
                forall|j: int| k <= j < 37 ==> #[trigger] counts@[j] == c3[j],
            decreases 37 - k,
        {
            let p = position_at(k);
            proof {
                lemma_pos_of_index(k as int);
            }
            match counts.at_mut(p.x, p.y) {
                Some(c) => {
                    *c = *c % 6;
                },
                None => {},
            }
            k += 1;
        }
        assert(ints(counts@) =~= layered_counts(s0));
        counts
    }
}

proof fn lemma_rotated_small(c: Seq<usize>)
    requires
        c.len() == 37,
        forall|k: int| 0 <= k < 37 ==> #[trigger] c[k] < 6,
    ensures
        forall|k: int| 0 <= k < 37 ==> #[trigger] rotated(c)[k] < 6,
{
    assert forall|k: int| 0 <= k < 37 implies #[trigger] rotated(c)[k] < 6 by {
        lemma_pos_of_index(k);
        lemma_index_of_pos(pos_y(k), pos_y(k) - pos_x(k) + 3);
    }
}

proof fn lemma_flipped_small(c: Seq<usize>)
    requires
        c.len() == 37,
        forall|k: int| 0 <= k < 37 ==> #[trigger] c[k] < 6,
    ensures
        forall|k: int| 0 <= k < 37 ==> #[trigger] flipped(c)[k] < 6,
{
    assert forall|k: int| 0 <= k < 37 implies #[trigger] flipped(c)[k] < 6 by {
        lemma_pos_of_index(k);
        lemma_index_of_pos(pos_y(k), pos_x(k));
    }
}

/// The total number of pokes in `c`.
fn total_cost(c: &Hex<usize>) -> (r: usize)
    requires
        c.wf(),
        forall|k: int| 0 <= k < 37 ==> #[trigger] c@[k] < 6,
    ensures
        r == cost(ints(c@)),
{
    let cells = c.enumerate();
    let mut sum: usize = 0;
    let mut k: usize = 0;
    while k < 37
        invariant
            k <= 37,
            c.wf(),
            forall|j: int| 0 <= j < 37 ==> #[trigger] c@[j] < 6,
            cells@.len() == 37,
            forall|j: int| 0 <= j < 37 ==> *(#[trigger] cells@[j]).0 == c@[j],
            sum == sum_upto(ints(c@), k as int),
            sum <= 6 * k,
        decreases 37 - k,
    {
        sum = sum + *cells[k].0;
        k += 1;
    }
    sum
}

/// Whether `c` is what the orientation search returns for the values `s`: the first of
/// the 12 candidates with the fewest pokes.
pub open spec fn is_search_result(s: Seq<int>, c: Seq<int>) -> bool {
    exists|i: int|
        0 <= i < 12 && c == candidate(s, i) && (forall|j: int|
            0 <= j < 12 ==> cost(candidate(s, i)) <= #[trigger] cost(candidate(s, j))) && (forall|j: int|
            0 <= j < i ==> cost(candidate(s, i)) < #[trigger] cost(candidate(s, j)))
}

/// The orientation search never costs more than the layered procedure on the board as it
/// stands.
pub proof fn lemma_search_no_worse_than_unframed(s: Seq<int>, c: Seq<int>)
    requires
        is_search_result(s, c),
    ensures
        cost(c) <= cost(layered_counts(s)),
{
    let i = choose|i: int|
        0 <= i < 12 && c == candidate(s, i) && (forall|j: int|
            0 <= j < 12 ==> cost(candidate(s, i)) <= #[trigger] cost(candidate(s, j))) && (forall|j: int|
            0 <= j < i ==> cost(candidate(s, i)) < #[trigger] cost(candidate(s, j)));
    assert(cost(candidate(s, i)) <= cost(candidate(s, 0)));
    assert(candidate(s, 0) == layered_counts(s));
}

impl Board {
    /// Solves the board in each of its 12 symmetric framings, maps each solution back to
    /// the board's own frame, and returns the first one with the fewest pokes.
    #[verifier::rlimit(60)]
    pub fn solve(self) -> (r: Hex<usize>)
        requires
            self.wf(),
        ensures
            r.wf(),
            is_search_result(self@, ints(r@)),
    {
        let ghost s0 = self@;
        let mut board = self;
        let mut best: Option<(Hex<usize>, usize)> = None;
        let ghost mut bi: int = 0;
        let mut i: usize = 0;
        while i < 12
            invariant
                i <= 12,
                board.wf(),
                s0.len() == 37,
                i < 12 ==> board@ == framed(s0, framing_mirrored(i as int), framing_turns(i as int)),
                match best {
                    None => i == 0,
                    Some((h, total)) => {
                        &&& h.wf()
                        &&& 0 <= bi < i
                        &&& ints(h@) == candidate(s0, bi)
                        &&& total == cost(candidate(s0, bi))
                        &&& forall|j: int|
                            0 <= j < i ==> cost(candidate(s0, bi)) <= #[trigger] cost(candidate(s0, j))
                        &&& forall|j: int|
                            0 <= j < bi ==> cost(candidate(s0, bi)) < #[trigger] cost(candidate(s0, j))
                    },
                },
            decreases 12 - i,
        {
            let mirrored = i >= 6;
            let turns = i % 6;
            let counts = board.duplicate().solve_this_orientation();
            let ghost c0 = counts@;
            assert forall|k: int| 0 <= k < 37 implies #[trigger] c0[k] < 6 by {
                assert(ints(c0)[k] == layered_counts(board@)[k]);
            }
            let mut c = counts;
            let back = (6 - turns) % 6;
            let mut j: usize = 0;
            while j < back
                invariant
                    j <= back,
                    c.wf(),
                    c0.len() == 37,
                    ints(c@) == rotated_n(ints(c0), j as nat),
                    forall|k: int| 0 <= k < 37 ==> #[trigger] c@[k] < 6,
                decreases back - j,
            {
                proof {
                    lemma_rotated_map(c@, |v: usize| v as int);
                    lemma_rotated_small(c@);
                }
                c.rotate_60_cw();
                j += 1;
            }
            if mirrored {
                proof {
                    lemma_flipped_map(c@, |v: usize| v as int);
                    lemma_flipped_small(c@);
                }
                c.flip_horizontally();
            }
            assert(ints(c@) == candidate(s0, i as int));
            let total = total_cost(&c);
            match best {
                None => {
                    best = Some((c, total));
                    proof {
                        bi = i as int;
                    }
                },
                Some((h, best_total)) => {
                    if total < best_total {
                        best = Some((c, total));
                        proof {
                            bi = i as int;
                        }
                    } else {
                        best = Some((h, best_total));
                    }
                },
            }
            board.rotate();
            if i == 5 {
                proof {
                    lemma_rotate_six_times_is_identity(s0);
                    reveal_with_fuel(rotated_n, 7);
                }
                board.flip();
            }
            i += 1;
        }
        match best {
            Some((h, _)) => h,
            None => Hex::from_fn(|x: usize, y: usize| 0),
        }
    }
}

impl Board {
    /// Pokes each cell as many times as `counts` holds for it.
    pub fn apply_pokes(&mut self, counts: &Hex<usize>)
        requires
            old(self).wf(),
            counts.wf(),
        ensures
            final(self).wf(),
            final(self)@ == applied(old(self)@, ints(counts@)),
    {
        let ghost s0 = self@;
        let ghost c = ints(counts@);
        let cells = counts.enumerate();
        proof {
            crate::laws::lemma_applied_zero(s0);
        }
        let mut k: usize = 0;
        while k < 37
            invariant
                k <= 37,
                self.wf(),
                counts.wf(),
                in_range(s0),
                c == ints(counts@),
                cells@.len() == 37,
                forall|j: int| 0 <= j < 37 ==> *(#[trigger] cells@[j]).0 == counts@[j],
                self@ == applied(s0, Seq::new(37, |j: int| if j < k { c[j] } else { 0 })),
            decreases 37 - k,
        {
            let n: usize = *cells[k].0;
            let p = position_at(k);
            proof {
                lemma_pos_of_index(k as int);
            }
            let ghost before = Seq::new(37, |j: int| if j < k { c[j] } else { 0 });
            let mut m: usize = 0;
            while m < n
                invariant
                    m <= n,
                    self.wf(),
                    k < 37,
                    is_valid(p.x as int, p.y as int),
                    index_of(p.x as int, p.y as int) == k,
                    s0.len() == 37,
                    before.len() == 37,
                    self@ == applied(s0, before.update(k as int, m as int)),
                decreases n - m,
            {
                self.poke(p);
                proof {
                    crate::laws::lemma_shifted_applied(s0, before.update(k as int, m as int), k as int, 1);
                    assert(before.update(k as int, m as int).update(k as int, m + 1) =~= before.update(
                        k as int,
                        m + 1,
                    ));
                }
                m += 1;
            }
            assert(before.update(k as int, n as int) =~= Seq::new(
                37,
                |j: int| if j < k + 1 { c[j] } else { 0 },
            ));
            k += 1;
        }
        assert(Seq::new(37, |j: int| if j < 37 { c[j] } else { 0 }) =~= c);
    }
}

/// How a rotation value is drawn: its digit and a space.
pub open spec fn arrow_text(v: int) -> Seq<char> {
    seq![('0' as u8 + v) as char, ' ']
}

impl Board {
    /// The board drawn as a hexagon of digits.
    pub fn to_string(&self) -> (r: String)
        requires
            self.wf(),
        ensures
            r@ == layout(Seq::new(37, |k: int| arrow_text(self@[k]))),
    {
        let f = |a: &Arrow| -> (t: String)
            ensures
                t@ == arrow_text(a@),
            {
                let v = a.value();
                let t = match v {
                    0 => "0 ",
                    1 => "1 ",
                    2 => "2 ",
                    3 => "3 ",
                    4 => "4 ",
                    _ => "5 ",
                };
                proof {
                    reveal_strlit("0 ");
                    reveal_strlit("1 ");
                    reveal_strlit("2 ");
                    reveal_strlit("3 ");
                    reveal_strlit("4 ");
                    reveal_strlit("5 ");
                }
                let s = t.to_string();
                assert(s@ =~= arrow_text(a@));
                s
            };
        let r = self.0.visualize(f);
        proof {
            let texts = choose|texts: Seq<String>|
                texts.len() == 37 && (forall|k: int|
                    0 <= k < 37 ==> f.ensures((&self.0@[k],), #[trigger] texts[k])) && r@ == layout(
                    texts.map_values(|t: String| t@),
                );
            let views = texts.map_values(|t: String| t@);
            assert forall|k: int| 0 <= k < 37 implies #[trigger] views[k] == arrow_text(self@[k]) by {
                assert(f.ensures((&self.0@[k],), texts[k]));
                assert(self@[k] == self.0@[k]@);
            }
            assert(views =~= Seq::new(37, |k: int| arrow_text(self@[k])));
        }
        r
    }
}

} // verus!
