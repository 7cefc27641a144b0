//! The 4x4 arrow puzzle: rows of four arrows, and pokes that turn two or three of them.

use vstd::prelude::*;

verus! {

/// An arrow of the 4x4 puzzle: it points in one of four directions.
#[derive(Debug, Clone, Copy, PartialEq, Eq, Structural)]
pub enum Arrow {
    Up,
    Right,
    Down,
    Left,
}

/// The number of clockwise quarter turns from `Up` to `a`.
pub open spec fn turns(a: Arrow) -> int {
    match a {
        Arrow::Up => 0,
        Arrow::Right => 1,
        Arrow::Down => 2,
        Arrow::Left => 3,
    }
}

impl Arrow {
    /// The arrow as a character.
    pub fn to_char(self) -> (r: char)
        ensures
            r == match self {
                Arrow::Up => '\u{2191}',
                Arrow::Right => '\u{2192}',
                Arrow::Down => '\u{2193}',
                Arrow::Left => '\u{2190}',
            },
    {
        match self {
            Arrow::Up => '\u{2191}',
            Arrow::Right => '\u{2192}',
            Arrow::Down => '\u{2193}',
            Arrow::Left => '\u{2190}',
        }
    }

    /// The arrow turned a quarter clockwise.
    fn rotate(self) -> (r: Arrow)
        ensures
            turns(r) == (turns(self) + 1) % 4,
    {
        match self {
            Arrow::Up => Arrow::Right,
            Arrow::Right => Arrow::Down,
            Arrow::Down => Arrow::Left,
            Arrow::Left => Arrow::Up,
        }
    }

    /// How many clockwise quarter turns take `self` to `other`.
    pub fn distance_to(self, other: Arrow) -> (r: u8)
        ensures
            r as int == (turns(other) - turns(self)) % 4,
    {
        match self {
            Arrow::Up => match other {
                Arrow::Up => 0,
                Arrow::Right => 1,
                Arrow::Down => 2,
                Arrow::Left => 3,
            },
            Arrow::Right => match other {
                Arrow::Up => 3,
                Arrow::Right => 0,
                Arrow::Down => 1,
                Arrow::Left => 2,
            },
            Arrow::Down => match other {
                Arrow::Up => 2,
                Arrow::Right => 3,
                Arrow::Down => 0,
                Arrow::Left => 1,
            },
            Arrow::Left => match other {
                Arrow::Up => 1,
                Arrow::Right => 2,
                Arrow::Down => 3,
                Arrow::Left => 0,
            },
        }
    }
}

/// Why a byte names no poke.
#[derive(Debug, PartialEq, Eq, Structural)]
pub enum RowPokeError {
    OutOfBounds(u8),
}

/// Where a row is poked: `A` turns the first two arrows, `B` the first three, `C` the last
/// three and `D` the last two.
#[derive(Debug, Clone, Copy, PartialEq, Eq, PartialOrd, Ord, Hash, Structural)]
pub enum RowPoke {
    A,
    B,
    C,
    D,
}

/// The number of a poke: 0 for `A` up to 3 for `D`.
pub open spec fn poke_number(p: RowPoke) -> int {
    match p {
        RowPoke::A => 0,
        RowPoke::B => 1,
        RowPoke::C => 2,
        RowPoke::D => 3,
    }
}

/// Whether the poke `p` turns the arrow at column `i`.
pub open spec fn turns_column(p: RowPoke, i: int) -> bool {
    match p {
        RowPoke::A => i <= 1,
        RowPoke::B => i <= 2,
        RowPoke::C => i >= 1,
        RowPoke::D => i >= 2,
    }
}

impl From<RowPoke> for u8 {
    fn from(p: RowPoke) -> (r: u8) {
        match p {
            RowPoke::A => 0,
            RowPoke::B => 1,
            RowPoke::C => 2,
            RowPoke::D => 3,
        }
    }
}

impl vstd::std_specs::convert::FromSpecImpl<RowPoke> for u8 {
    open spec fn obeys_from_spec() -> bool {
        true
    }

    open spec fn from_spec(p: RowPoke) -> u8 {
        poke_number(p) as u8
    }
}

impl RowPoke {
    /// The poke of number `x`, or an error where `x` is 4 or more.
    pub fn from_u8(x: u8) -> (r: Result<RowPoke, RowPokeError>)
        ensures
            match r {
                Ok(p) => x < 4 && poke_number(p) == x as int,
                Err(e) => x >= 4 && e == RowPokeError::OutOfBounds(x),
            },
    {
        match x {
            0 => Ok(RowPoke::A),
            1 => Ok(RowPoke::B),
            2 => Ok(RowPoke::C),
            3 => Ok(RowPoke::D),
            _ => Err(RowPokeError::OutOfBounds(x)),
        }
    }
}

impl TryFrom<u8> for RowPoke {
    type Error = RowPokeError;

    fn try_from(x: u8) -> Result<RowPoke, RowPokeError> {
        RowPoke::from_u8(x)
    }
}

impl vstd::std_specs::convert::TryFromSpecImpl<u8> for RowPoke {
    open spec fn obeys_try_from_spec() -> bool {
        true
    }

    open spec fn try_from_spec(x: u8) -> Result<RowPoke, RowPokeError> {
        if x < 4 {
            Ok(poke_of(x as int))
        } else {
            Err(RowPokeError::OutOfBounds(x))
        }
    }
}

/// A row of four arrows.
#[derive(Debug, Clone, Copy, PartialEq, Eq)]
pub struct Row(pub [Arrow; 4]);

/// The arrows of a row as quarter turns from `Up`.
pub open spec fn row_turns(r: Row) -> Seq<int> {
    r.0@.map_values(|a: Arrow| turns(a))
}

/// The quarter turns of a row after the poke `p`.
pub open spec fn row_poked(s: Seq<int>, p: RowPoke) -> Seq<int> {
    Seq::new(4, |i: int| if turns_column(p, i) { (s[i] + 1) % 4 } else { s[i] })
}

/// The quarter turns of a row after the pokes `ps`, one after another.
pub open spec fn row_poked_all(s: Seq<int>, ps: Seq<RowPoke>) -> Seq<int>
    decreases ps.len(),
{
    if ps.len() == 0 {
        s
    } else {
        row_poked(row_poked_all(s, ps.drop_last()), ps.last())
    }
}

/// Whether all four arrows point the same way.
pub open spec fn all_same(s: Seq<int>) -> bool {
    s[0] == s[1] && s[1] == s[2] && s[2] == s[3]
}

impl Row {
    /// Whether all arrows point the same way.
    fn aligned(&self) -> (r: bool)
        ensures
            r == all_same(row_turns(*self)),
    {
        let a = self.0[0];
        let b = self.0[1];
        let c = self.0[2];
        let d = self.0[3];
        a == b && b == c && c == d
    }

    /// The row after the poke `p`.
    pub fn poke(&self, p: RowPoke) -> (r: Row)
        ensures
            row_turns(r) == row_poked(row_turns(*self), p),
    {
        let a = self.0[0];
        let b = self.0[1];
        let c = self.0[2];
        let d = self.0[3];
        let r = match p {
            RowPoke::A => Row([a.rotate(), b.rotate(), c, d]),
            RowPoke::B => Row([a.rotate(), b.rotate(), c.rotate(), d]),
            RowPoke::C => Row([a, b.rotate(), c.rotate(), d.rotate()]),
            RowPoke::D => Row([a, b, c.rotate(), d.rotate()]),
        };
        assert(row_turns(r) =~= row_poked(row_turns(*self), p));
        r
    }

    /// The row after the pokes `ps`, one after another.
    fn poke_many(&self, ps: &[RowPoke]) -> (r: Row)
        ensures
            row_turns(r) == row_poked_all(row_turns(*self), ps@),
    {
        let mut r = Row(self.0);
        let mut i: usize = 0;
        assert(row_turns(r) =~= row_turns(*self));
        while i < ps.len()
            invariant
                i <= ps@.len(),
                row_turns(r) == row_poked_all(row_turns(*self), ps@.subrange(0, i as int)),
            decreases ps@.len() - i,
        {
            r = r.poke(ps[i]);
            assert(ps@.subrange(0, i + 1).drop_last() =~= ps@.subrange(0, i as int));
            i += 1;
        }
        assert(ps@.subrange(0, ps@.len() as int) =~= ps@);
        r
    }

    /// The row after each of the four pokes, in the order `A`, `B`, `C`, `D`.
    fn poke_all(&self) -> (r: [Row; 4])
        ensures
            row_turns(r[0]) == row_poked(row_turns(*self), RowPoke::A),
            row_turns(r[1]) == row_poked(row_turns(*self), RowPoke::B),
            row_turns(r[2]) == row_poked(row_turns(*self), RowPoke::C),
            row_turns(r[3]) == row_poked(row_turns(*self), RowPoke::D),
    {
        [self.poke(RowPoke::A), self.poke(RowPoke::B), self.poke(RowPoke::C), self.poke(RowPoke::D)]
    }
}

/// The poke of number `d`.
pub open spec fn poke_of(d: int) -> RowPoke {
    if d == 0 {
        RowPoke::A
    } else if d == 1 {
        RowPoke::B
    } else if d == 2 {
        RowPoke::C
    } else {
        RowPoke::D
    }
}

pub open spec fn pow4(n: nat) -> nat
    decreases n,
{
    if n == 0 {
        1
    } else {
        4 * pow4((n - 1) as nat)
    }
}

/// The `i`-th sequence of `n` pokes, in the order of application, where the last poke is
/// the least significant base-4 digit of `i`.
pub open spec fn nth_sequence(n: nat, i: int) -> Seq<RowPoke>
    decreases n,
{
    if n == 0 {
        Seq::empty()
    } else {
        nth_sequence((n - 1) as nat, i / 4).push(poke_of(i % 4))
    }
}

/// The same pokes from the last applied to the first.
pub open spec fn nth_sequence_reversed(n: nat, i: int) -> Seq<RowPoke>
    decreases n,
{
    if n == 0 {
        Seq::empty()
    } else {
        seq![poke_of(i % 4)] + nth_sequence_reversed((n - 1) as nat, i / 4)
    }
}

/// The number of a sequence of pokes among those of its length.
pub open spec fn sequence_number(ps: Seq<RowPoke>) -> int
    decreases ps.len(),
{
    if ps.len() == 0 {
        0
    } else {
        sequence_number(ps.drop_last()) * 4 + poke_number(ps.last())
    }
}

proof fn lemma_sequence_number(ps: Seq<RowPoke>)
    ensures
        0 <= sequence_number(ps) < pow4(ps.len()),
        nth_sequence(ps.len(), sequence_number(ps)) == ps,
    decreases ps.len(),
{
    if ps.len() > 0 {
        lemma_sequence_number(ps.drop_last());
        let k = sequence_number(ps.drop_last());
        let d = poke_number(ps.last());
        assert((k * 4 + d) / 4 == k);
        assert((k * 4 + d) % 4 == d);
        assert(ps.drop_last().push(ps.last()) =~= ps);
    }
}

proof fn lemma_reversed(n: nat, i: int)
    ensures
        nth_sequence_reversed(n, i) == nth_sequence(n, i).reverse(),
    decreases n,
{
    if n > 0 {
        lemma_reversed((n - 1) as nat, i / 4);
        assert(nth_sequence_reversed(n, i) =~= nth_sequence(n, i).reverse());
    }
}

/// A sequence of at most nine pokes that aligns any row: `A`, `B` and `C` each turned as
/// often as the differences between neighbouring arrows require.
pub open spec fn aligning_pokes(s: Seq<int>) -> Seq<RowPoke> {
    Seq::new(((s[2] - s[1]) % 4) as nat, |i: int| RowPoke::A) + Seq::new(
        ((s[3] - s[2]) % 4) as nat,
        |i: int| RowPoke::B,
    ) + Seq::new(((s[0] - s[1]) % 4) as nat, |i: int| RowPoke::C)
}

/// The quarter turns after `n` pokes of the same kind.
proof fn lemma_poked_repeat(s: Seq<int>, p: RowPoke, n: nat, pre: Seq<RowPoke>)
    requires
        s.len() == 4,
        forall|i: int| 0 <= i < 4 ==> 0 <= #[trigger] s[i] < 4,
    ensures
        row_poked_all(s, pre + Seq::new(n, |i: int| p)) == Seq::new(
            4,
            |i: int|
                if turns_column(p, i) {
                    (row_poked_all(s, pre)[i] + n) % 4
                } else {
                    row_poked_all(s, pre)[i]
                },
        ),
    decreases n,
{
    lemma_poked_all_len(s, pre);
    if n == 0 {
        assert(pre + Seq::new(n, |i: int| p) =~= pre);
        lemma_poked_all_range(s, pre);
        assert(row_poked_all(s, pre) =~= Seq::new(
            4,
            |i: int|
                if turns_column(p, i) {
                    (row_poked_all(s, pre)[i] + n) % 4
                } else {
                    row_poked_all(s, pre)[i]
                },
        ));
    } else {
        lemma_poked_repeat(s, p, (n - 1) as nat, pre);
        let whole = pre + Seq::new(n, |i: int| p);
        assert(whole.drop_last() =~= pre + Seq::new((n - 1) as nat, |i: int| p));
        assert(whole.last() == p);
        assert(row_poked_all(s, whole) =~= Seq::new(
            4,
            |i: int|
                if turns_column(p, i) {
                    (row_poked_all(s, pre)[i] + n) % 4
                } else {
                    row_poked_all(s, pre)[i]
                },
        ));
    }
}

proof fn lemma_poked_all_len(s: Seq<int>, ps: Seq<RowPoke>)
    requires
        s.len() == 4,
    ensures
        row_poked_all(s, ps).len() == 4,
    decreases ps.len(),
{
    if ps.len() > 0 {
        lemma_poked_all_len(s, ps.drop_last());
    }
}

proof fn lemma_poked_all_range(s: Seq<int>, ps: Seq<RowPoke>)
    requires
        s.len() == 4,
        forall|i: int| 0 <= i < 4 ==> 0 <= #[trigger] s[i] < 4,
    ensures
        forall|i: int| 0 <= i < 4 ==> 0 <= #[trigger] row_poked_all(s, ps)[i] < 4,
    decreases ps.len(),
{
    if ps.len() > 0 {
        lemma_poked_all_range(s, ps.drop_last());
        lemma_poked_all_len(s, ps.drop_last());
    }
}

proof fn lemma_mod4_add(x: int, y: int)
    ensures
        ((x % 4) + y) % 4 == (x + y) % 4,
{
    vstd::arithmetic::div_mod::lemma_add_mod_noop(x, y, 4);
    vstd::arithmetic::div_mod::lemma_add_mod_noop(x % 4, y, 4);
    vstd::arithmetic::div_mod::lemma_mod_twice(x, 4);
}

proof fn lemma_aligning_pokes(s: Seq<int>)
    requires
        s.len() == 4,
        forall|i: int| 0 <= i < 4 ==> 0 <= #[trigger] s[i] < 4,
    ensures
        all_same(row_poked_all(s, aligning_pokes(s))),
        aligning_pokes(s).len() <= 9,
{
    let na = ((s[2] - s[1]) % 4) as nat;
    let nb = ((s[3] - s[2]) % 4) as nat;
    let nc = ((s[0] - s[1]) % 4) as nat;
    let e = Seq::<RowPoke>::empty();
    let sa = Seq::new(na, |i: int| RowPoke::A);
    let sb = Seq::new(nb, |i: int| RowPoke::B);
    let sc = Seq::new(nc, |i: int| RowPoke::C);
    lemma_poked_repeat(s, RowPoke::A, na, e);
    assert(e + sa =~= sa);
    assert(row_poked_all(s, e) == s);
    let t1 = row_poked_all(s, sa);
    lemma_poked_repeat(s, RowPoke::B, nb, sa);
    let t2 = row_poked_all(s, sa + sb);
    lemma_poked_repeat(s, RowPoke::C, nc, sa + sb);
    let t3 = row_poked_all(s, sa + sb + sc);
    assert(aligning_pokes(s) == sa + sb + sc);
    lemma_mod4_add(s[0] + na, nb as int);
    lemma_mod4_add(s[1] + na, nb as int);
    lemma_mod4_add(s[1] + na + nb, nc as int);
    lemma_mod4_add(s[2] + nb, nc as int);
    assert(t2[0] == (s[0] + na + nb) % 4);
    assert(t3[1] == (s[1] + na + nb + nc) % 4);
    assert(t3[2] == (s[2] + nb + nc) % 4);
    assert(t3[3] == (s[3] + nc) % 4);
    assert(t3[0] == t3[1]) by {
        assert((s[0] + na + nb) % 4 == (s[1] + na + nb + nc) % 4) by {
            vstd::arithmetic::div_mod::lemma_fundamental_div_mod(s[0] - s[1], 4);
            vstd::arithmetic::div_mod::lemma_mod_multiples_vanish((s[0] - s[1]) / 4, s[1] + na + nb + nc, 4);
        }
    }
    assert(t3[2] == t3[1]) by {
        vstd::arithmetic::div_mod::lemma_fundamental_div_mod(s[2] - s[1], 4);
        vstd::arithmetic::div_mod::lemma_mod_multiples_vanish((s[2] - s[1]) / 4, s[2] + nb + nc, 4);
    }
    assert(t3[3] == t3[2]) by {
        vstd::arithmetic::div_mod::lemma_fundamental_div_mod(s[3] - s[2], 4);
        vstd::arithmetic::div_mod::lemma_mod_multiples_vanish((s[3] - s[2]) / 4, s[3] + nc, 4);
    }
}

proof fn lemma_nth_sequence_len(n: nat, i: int)
    ensures
        nth_sequence(n, i).len() == n,
    decreases n,
{
    if n > 0 {
        lemma_nth_sequence_len((n - 1) as nat, i / 4);
    }
}

proof fn lemma_pow4_mono(a: nat, b: nat)
    requires
        a <= b,
    ensures
        pow4(a) <= pow4(b),
    decreases b,
{
    if a < b {
        lemma_pow4_mono(a, (b - 1) as nat);
    }
}

proof fn lemma_pow4_bound(n: nat)
    requires
        n <= 8,
    ensures
        pow4(n) <= 65536,
{
    lemma_pow4_mono(n, 8);
    assert(pow4(8) == 65536) by {
        reveal_with_fuel(pow4, 9);
    }
}

impl Row {
    /// The shortest sequence of pokes that aligns the row, listed from the last poke
    /// applied to the first.
    pub fn pokes_to_align(&self) -> (r: Vec<RowPoke>)
        ensures
            all_same(row_poked_all(row_turns(*self), r@.reverse())),
            forall|ps: Seq<RowPoke>|
                ps.len() < r@.len() ==> !all_same(#[trigger] row_poked_all(row_turns(*self), ps)),
    {
        let ghost s = row_turns(*self);
        let ghost witness = aligning_pokes(s);
        proof {
            lemma_aligning_pokes(s);
        }
        let mut rows: Vec<Row> = vec![Row(self.0)];
        let mut n: usize = 0;
        let mut size: usize = 1;
        proof {
            assert(row_turns(rows@[0]) =~= row_poked_all(s, nth_sequence(0, 0)));
        }
        loop
            invariant
                s == row_turns(*self),
                n <= witness.len(),
                witness.len() <= 9,
                all_same(row_poked_all(s, witness)),
                size == pow4(n as nat),
                rows@.len() == size,
                forall|i: int| 0 <= i < size ==> row_turns(#[trigger] rows@[i]) == row_poked_all(s, nth_sequence(n as nat, i)),
                forall|ps: Seq<RowPoke>| ps.len() < n ==> !all_same(#[trigger] row_poked_all(s, ps)),
            decreases witness.len() - n,
        {
            match first_aligned(&rows) {
                Some(i) => {
                    let r = deduce_pokes(n, i);
                    proof {
                        assert(row_turns(rows@[i as int]) == row_poked_all(s, nth_sequence(n as nat, i as int)));
                        lemma_reversed(n as nat, i as int);
                        lemma_nth_sequence_len(n as nat, i as int);
                        assert(nth_sequence(n as nat, i as int).reverse().reverse() =~= nth_sequence(n as nat, i as int));
                        assert(r@.reverse() == nth_sequence(n as nat, i as int));
                    }
                    return r;
                },
                None => {},
            }
            proof {
                assert forall|ps: Seq<RowPoke>| ps.len() < n + 1 implies !all_same(#[trigger] row_poked_all(s, ps)) by {
                    if ps.len() == n {
                        lemma_sequence_number(ps);
                        let k = sequence_number(ps);
                        assert(row_turns(rows@[k]) == row_poked_all(s, ps));
                    }
                }
                if n == witness.len() {
                    lemma_sequence_number(witness);
                    let k = sequence_number(witness);
                    assert(row_turns(rows@[k]) == row_poked_all(s, witness));
                }
                lemma_pow4_bound(n as nat);
            }
            let mut next: Vec<Row> = Vec::new();
            let mut j: usize = 0;
            while j < size
                invariant
                    j <= size,
                    size == pow4(n as nat),
                    size <= 65536,
                    rows@.len() == size,
                    forall|i: int| 0 <= i < size ==> row_turns(#[trigger] rows@[i]) == row_poked_all(s, nth_sequence(n as nat, i)),
                    next@.len() == 4 * j,
                    forall|i: int| 0 <= i < 4 * j ==> row_turns(#[trigger] next@[i]) == row_poked_all(s, nth_sequence((n + 1) as nat, i)),
                decreases size - j,
            {
                let four = rows[j].poke_all();
                next.push(four[0]);
                next.push(four[1]);
                next.push(four[2]);
                next.push(four[3]);
                proof {
                    assert forall|i: int| 4 * j <= i < 4 * j + 4 implies row_turns(#[trigger] next@[i]) == row_poked_all(s, nth_sequence((n + 1) as nat, i)) by {
                        assert(i / 4 == j);
                        assert(nth_sequence((n + 1) as nat, i).drop_last() == nth_sequence(n as nat, j as int));
                    }
                }
                j += 1;
            }
            rows = next;
            size = 4 * size;
            n += 1;
        }
    }
}

/// The index of the first aligned row, if any.
fn first_aligned(rows: &Vec<Row>) -> (r: Option<usize>)
    ensures
        match r {
            Some(i) => i < rows@.len() && all_same(row_turns(rows@[i as int])),
            None => forall|j: int| 0 <= j < rows@.len() ==> !all_same(row_turns(#[trigger] rows@[j])),
        },
{
    let mut i: usize = 0;
    while i < rows.len()
        invariant
            i <= rows@.len(),
            forall|j: int| 0 <= j < i ==> !all_same(row_turns(#[trigger] rows@[j])),
        decreases rows@.len() - i,
    {
        if rows[i].aligned() {
            return Some(i);
        }
        i += 1;
    }
    None
}

/// The `i`-th sequence of `n` pokes, from the last poke applied to the first.
fn deduce_pokes(n: usize, i: usize) -> (r: Vec<RowPoke>)
    ensures
        r@ == nth_sequence_reversed(n as nat, i as int),
{
    let mut r: Vec<RowPoke> = Vec::new();
    let mut x: usize = i;
    let mut m: usize = 0;
    while m < n
        invariant
            m <= n,
            r@ + nth_sequence_reversed((n - m) as nat, x as int) == nth_sequence_reversed(n as nat, i as int),
        decreases n - m,
    {
        let p = match x % 4 {
            0 => RowPoke::A,
            1 => RowPoke::B,
            2 => RowPoke::C,
            _ => RowPoke::D,
        };
        proof {
            assert(nth_sequence_reversed((n - m) as nat, x as int) == seq![p] + nth_sequence_reversed((n - m - 1) as nat, (x / 4) as int));
            assert(r@.push(p) + nth_sequence_reversed((n - m - 1) as nat, (x / 4) as int) =~= r@ + (seq![p] + nth_sequence_reversed((n - m - 1) as nat, (x / 4) as int)));
        }
        r.push(p);
        x = x / 4;
        m += 1;
    }
    assert(r@ + nth_sequence_reversed(0, x as int) =~= r@);
    r
}

/// A poke of the 4x4 board: the first field picks the poke within each row, the second
/// picks the rows, in the way a row poke picks columns.
#[derive(Debug, Clone, Copy, PartialEq, Eq, Hash, Structural)]
pub struct BoardPoke(pub RowPoke, pub RowPoke);

/// Four rows of four arrows.
#[derive(Debug, Clone, Copy, PartialEq, Eq)]
pub struct Board(pub [Row; 4]);

/// The quarter turns of each arrow of a board, row by row.
pub open spec fn board_turns(b: Board) -> Seq<Seq<int>> {
    b.0@.map_values(|r: Row| row_turns(r))
}

/// The quarter turns of a board after the poke `p`.
pub open spec fn board_poked(s: Seq<Seq<int>>, p: BoardPoke) -> Seq<Seq<int>> {
    Seq::new(4, |y: int| if turns_column(p.1, y) { row_poked(s[y], p.0) } else { s[y] })
}

/// The quarter turns of a board after the pokes `ps`, one after another.
pub open spec fn board_poked_all(s: Seq<Seq<int>>, ps: Seq<BoardPoke>) -> Seq<Seq<int>>
    decreases ps.len(),
{
    if ps.len() == 0 {
        s
    } else {
        board_poked(board_poked_all(s, ps.drop_last()), ps.last())
    }
}

impl Board {
    /// Whether all sixteen arrows point the same way.
    pub fn aligned(&self) -> (r: bool)
        ensures
            r == (all_same(board_turns(*self)[0]) && board_turns(*self)[0] == board_turns(*self)[1]
                && board_turns(*self)[1] == board_turns(*self)[2] && board_turns(*self)[2]
                == board_turns(*self)[3]),
    {
        let a = self.0[0];
        let b = self.0[1];
        let c = self.0[2];
        let d = self.0[3];
        let r = a.aligned() && same_row(&a, &b) && same_row(&b, &c) && same_row(&c, &d);
        proof {
            assert(board_turns(*self)[0] == row_turns(a));
            assert(board_turns(*self)[1] == row_turns(b));
            assert(board_turns(*self)[2] == row_turns(c));
            assert(board_turns(*self)[3] == row_turns(d));
        }
        r
    }

    /// The board after the poke `p`.
    pub fn poke(&self, p: BoardPoke) -> (r: Board)
        ensures
            board_turns(r) == board_poked(board_turns(*self), p),
    {
        let BoardPoke(x, y) = p;
        let a = self.0[0];
        let b = self.0[1];
        let c = self.0[2];
        let d = self.0[3];
        let r = match y {
            RowPoke::A => Board([a.poke(x), b.poke(x), c, d]),
            RowPoke::B => Board([a.poke(x), b.poke(x), c.poke(x), d]),
            RowPoke::C => Board([a, b.poke(x), c.poke(x), d.poke(x)]),
            RowPoke::D => Board([a, b, c.poke(x), d.poke(x)]),
        };
        assert(board_turns(r) =~= board_poked(board_turns(*self), p));
        r
    }

    /// The board after the pokes `ps`, one after another.
    pub fn poke_many(&self, ps: &[BoardPoke]) -> (r: Board)
        ensures
            board_turns(r) == board_poked_all(board_turns(*self), ps@),
    {
        let mut r = Board(self.0);
        let mut i: usize = 0;
        assert(board_turns(r) =~= board_turns(*self));
        while i < ps.len()
            invariant
                i <= ps@.len(),
                board_turns(r) == board_poked_all(board_turns(*self), ps@.subrange(0, i as int)),
            decreases ps@.len() - i,
        {
            r = r.poke(ps[i]);
            assert(ps@.subrange(0, i + 1).drop_last() =~= ps@.subrange(0, i as int));
            i += 1;
        }
        assert(ps@.subrange(0, ps@.len() as int) =~= ps@);
        r
    }
}

/// Whether two rows hold the same arrows.
fn same_row(a: &Row, b: &Row) -> (r: bool)
    ensures
        r == (row_turns(*a) == row_turns(*b)),
{
    let r = a.0[0] == b.0[0] && a.0[1] == b.0[1] && a.0[2] == b.0[2] && a.0[3] == b.0[3];
    proof {
        if r {
            assert(row_turns(*a) =~= row_turns(*b));
        }
        if row_turns(*a) == row_turns(*b) {
            assert(row_turns(*a)[0] == row_turns(*b)[0]);
            assert(row_turns(*a)[1] == row_turns(*b)[1]);
            assert(row_turns(*a)[2] == row_turns(*b)[2]);
            assert(row_turns(*a)[3] == row_turns(*b)[3]);
        }
    }
    r
}

/// The character of an arrow.
pub open spec fn arrow_char(a: Arrow) -> char {
    match a {
        Arrow::Up => '\u{2191}',
        Arrow::Right => '\u{2192}',
        Arrow::Down => '\u{2193}',
        Arrow::Left => '\u{2190}',
    }
}

/// One arrow as drawn: padded with a space on each side, and shown in reverse video where
/// it is highlighted.
pub open spec fn cell_text(a: Arrow, highlighted: bool) -> Seq<char> {
    if highlighted {
        seq!['\x1b', '[', '7', 'm', ' ', arrow_char(a), ' ', '\x1b', '[', '0', 'm']
    } else {
        seq![' ', arrow_char(a), ' ']
    }
}

/// The first `n` arrows of row `y` as drawn, with the arrow at `(px, py)` highlighted.
pub open spec fn cells_text(b: Board, y: int, n: int, px: int, py: int) -> Seq<char>
    decreases n,
{
    if n <= 0 {
        Seq::empty()
    } else {
        cells_text(b, y, n - 1, px, py) + cell_text(b.0@[y].0@[n - 1], n - 1 == px && y == py)
    }
}

/// The first `n` rows of the board as drawn, each between two walls.
pub open spec fn rows_text(b: Board, n: int, px: int, py: int) -> Seq<char>
    decreases n,
{
    if n <= 0 {
        Seq::empty()
    } else {
        rows_text(b, n - 1, px, py) + seq!['\u{2502}'] + cells_text(b, n - 1, 4, px, py) + seq!['\u{2502}', '\n']
    }
}

/// A horizontal wall of twelve segments between two corners.
pub open spec fn wall(left: char, right: char) -> Seq<char> {
    seq![left] + Seq::new(12, |i: int| '\u{2500}') + seq![right]
}

/// The board drawn in a box, with the arrow at `(px, py)` highlighted.
pub open spec fn highlight_text(b: Board, px: int, py: int) -> Seq<char> {
    wall('\u{250c}', '\u{2510}') + seq!['\n'] + rows_text(b, 4, px, py) + wall('\u{2514}', '\u{2518}')
}

fn arrow_str(a: Arrow) -> (r: &'static str)
    ensures
        r@ == seq![arrow_char(a)],
{
    let r = match a {
        Arrow::Up => "\u{2191}",
        Arrow::Right => "\u{2192}",
        Arrow::Down => "\u{2193}",
        Arrow::Left => "\u{2190}",
    };
    proof {
        reveal_strlit("\u{2191}");
        reveal_strlit("\u{2192}");
        reveal_strlit("\u{2193}");
        reveal_strlit("\u{2190}");
    }
    r
}

impl Board {
    /// The board drawn in a box, with the arrow that `p` names shown in reverse video.
    pub fn to_string_with_highlight(&self, p: BoardPoke) -> (r: String)
        ensures
            r@ == highlight_text(*self, poke_number(p.0), poke_number(p.1)),
    {
        let BoardPoke(px, py) = p;
        self.draw(px.into(), py.into())
    }

    /// The board drawn in a box.
    pub fn to_string(&self) -> (r: String)
        ensures
            r@ == highlight_text(*self, 4, 4),
    {
        self.draw(4, 4)
    }

    /// The board drawn in a box, with the arrow at `(px, py)`, if any, in reverse video.
    fn draw(&self, px: u8, py: u8) -> (r: String)
        ensures
            r@ == highlight_text(*self, px as int, py as int),
    {
        let ghost hx = px as int;
        let ghost hy = py as int;
        let mut buf = String::new();
        buf.append("\u{250c}\u{2500}\u{2500}\u{2500}\u{2500}\u{2500}\u{2500}\u{2500}\u{2500}\u{2500}\u{2500}\u{2500}\u{2500}\u{2510}\n");
        proof {
            reveal_strlit("\u{250c}\u{2500}\u{2500}\u{2500}\u{2500}\u{2500}\u{2500}\u{2500}\u{2500}\u{2500}\u{2500}\u{2500}\u{2500}\u{2510}\n");
            assert(buf@ =~= wall('\u{250c}', '\u{2510}') + seq!['\n'] + rows_text(*self, 0, hx, hy));
        }
        let mut y: u8 = 0;
        while y < 4
            invariant
                y <= 4,
                px as int == hx,
                py as int == hy,
                buf@ == wall('\u{250c}', '\u{2510}') + seq!['\n'] + rows_text(*self, y as int, hx, hy),
            decreases 4 - y,
        {
            let ghost row_start = buf@;
            buf.append("\u{2502}");
            proof {
                reveal_strlit("\u{2502}");
            }
            let mut x: u8 = 0;
            while x < 4
                invariant
                    x <= 4,
                    y < 4,
                    px as int == hx,
                    py as int == hy,
                    buf@ == row_start + seq!['\u{2502}'] + cells_text(*self, y as int, x as int, hx, hy),
                decreases 4 - x,
            {
                let ux: usize = x as usize;
                let uy: usize = y as usize;
                let arrow = self.0[uy].0[ux];
                let ghost before = buf@;
                if x == px && y == py {
                    buf.append("\x1b[7m ");
                    buf.append(arrow_str(arrow));
                    buf.append(" \x1b[0m");
                    proof {
                        reveal_strlit("\x1b[7m ");
                        reveal_strlit(" \x1b[0m");
                        assert(buf@ =~= before + cell_text(arrow, true));
                    }
                } else {
                    buf.append(" ");
                    buf.append(arrow_str(arrow));
                    buf.append(" ");
                    proof {
                        reveal_strlit(" ");
                        assert(buf@ =~= before + cell_text(arrow, false));
                    }
                }
                proof {
                    assert(self.0@[y as int].0@[x as int] == arrow);
                    assert(buf@ =~= row_start + seq!['\u{2502}'] + cells_text(*self, y as int, x + 1, hx, hy));
                }
                x += 1;
            }
            buf.append("\u{2502}\n");
            proof {
                reveal_strlit("\u{2502}\n");
                assert(buf@ =~= wall('\u{250c}', '\u{2510}') + seq!['\n'] + rows_text(*self, y + 1, hx, hy));
            }
            y += 1;
        }
        buf.append("\u{2514}\u{2500}\u{2500}\u{2500}\u{2500}\u{2500}\u{2500}\u{2500}\u{2500}\u{2500}\u{2500}\u{2500}\u{2500}\u{2518}");
        proof {
            reveal_strlit("\u{2514}\u{2500}\u{2500}\u{2500}\u{2500}\u{2500}\u{2500}\u{2500}\u{2500}\u{2500}\u{2500}\u{2500}\u{2500}\u{2518}");
            assert(buf@ =~= highlight_text(*self, hx, hy));
        }
        buf
    }
}

impl Row {
    /// The row drawn in a box.
    pub fn to_string(&self) -> (r: String)
        ensures
            r@ == wall('\u{250c}', '\u{2510}') + seq!['\n'] + rows_text(Board([*self, *self, *self, *self]), 1, 4, 4)
                + wall('\u{2514}', '\u{2518}'),
    {
        let b = Board([*self, *self, *self, *self]);
        let mut buf = String::new();
        buf.append("\u{250c}\u{2500}\u{2500}\u{2500}\u{2500}\u{2500}\u{2500}\u{2500}\u{2500}\u{2500}\u{2500}\u{2500}\u{2500}\u{2510}\n\u{2502}");
        proof {
            reveal_strlit("\u{250c}\u{2500}\u{2500}\u{2500}\u{2500}\u{2500}\u{2500}\u{2500}\u{2500}\u{2500}\u{2500}\u{2500}\u{2500}\u{2510}\n\u{2502}");
            assert(buf@ =~= wall('\u{250c}', '\u{2510}') + seq!['\n', '\u{2502}'] + cells_text(b, 0, 0, 4, 4));
        }
        let mut x: usize = 0;
        while x < 4
            invariant
                x <= 4,
                b == Board([*self, *self, *self, *self]),
                buf@ == wall('\u{250c}', '\u{2510}') + seq!['\n', '\u{2502}'] + cells_text(b, 0, x as int, 4, 4),
            decreases 4 - x,
        {
            let ghost before = buf@;
            buf.append(" ");
            buf.append(arrow_str(self.0[x]));
            buf.append(" ");
            proof {
                reveal_strlit(" ");
                assert(b.0@[0].0@[x as int] == self.0[x as int]);
                assert(buf@ =~= wall('\u{250c}', '\u{2510}') + seq!['\n', '\u{2502}'] + cells_text(b, 0, x + 1, 4, 4));
            }
            x += 1;
        }
        buf.append("\u{2502}\n\u{2514}\u{2500}\u{2500}\u{2500}\u{2500}\u{2500}\u{2500}\u{2500}\u{2500}\u{2500}\u{2500}\u{2500}\u{2500}\u{2518}");
        proof {
            reveal_strlit("\u{2502}\n\u{2514}\u{2500}\u{2500}\u{2500}\u{2500}\u{2500}\u{2500}\u{2500}\u{2500}\u{2500}\u{2500}\u{2500}\u{2500}\u{2518}");
            assert(rows_text(b, 0, 4, 4) =~= Seq::<char>::empty());
            assert(buf@ =~= wall('\u{250c}', '\u{2510}') + seq!['\n'] + rows_text(b, 1, 4, 4) + wall('\u{2514}', '\u{2518}'));
        }
        buf
    }
}

} // verus!
