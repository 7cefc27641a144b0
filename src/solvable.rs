//! The layered procedure aligns every board that pokes can align. The proof runs the
//! procedure over the integers, where it is linear, and checks it on the flower of each cell.

use vstd::prelude::*;

use crate::expert::{
    after_moves, all_aligned, applied, candidate, cost, fixup, flower_at, flower_sum, framed,
    framing_mirrored, framing_turns, in_range, is_search_result, layered, layered_counts, moves,
    partial_solve,
};
use crate::hex::{
    flipped, lemma_index_of_pos, lemma_pos_of_index, pos_x, pos_y, rotated, rotated_n,
};

verus! {

/// The values after adding `n` to every cell that a poke at `p` turns, without reducing.
pub open spec fn add_flower(x: Seq<int>, p: int, n: int) -> Seq<int> {
    Seq::new(37, |k: int| if flower_at(p, k) { x[k] + n } else { x[k] })
}

/// The first `i` moves of the partial solve over the integers: each move pokes as often
/// as takes its target to exactly 0, a negative number of times where needed.
pub open spec fn int_moves(x: Seq<int>, i: nat) -> Seq<int>
    decreases i,
{
    if i == 0 {
        x
    } else {
        let prev = int_moves(x, (i - 1) as nat);
        add_flower(prev, moves()[i - 1].1, -prev[moves()[i - 1].0])
    }
}

/// The correction of the border cells over the integers.
pub open spec fn int_fixup(x: Seq<int>) -> Seq<int> {
    let d6 = x[21];
    let e6 = x[27];
    let f6 = x[32];
    add_flower(add_flower(add_flower(add_flower(x, 0, e6 - d6), 1, -e6), 2, 3 * (d6 + f6)), 3, -e6)
}

/// What the layered procedure leaves of `x`, over the integers.
pub open spec fn residual(x: Seq<int>) -> Seq<int> {
    int_moves(int_fixup(int_moves(x, 30)), 30)
}

pub open spec fn vadd(a: Seq<int>, b: Seq<int>) -> Seq<int> {
    Seq::new(37, |k: int| a[k] + b[k])
}

pub open spec fn vscale(l: int, a: Seq<int>) -> Seq<int> {
    Seq::new(37, |k: int| l * a[k])
}

pub open spec fn mod6(x: Seq<int>) -> Seq<int> {
    Seq::new(37, |k: int| x[k] % 6)
}

proof fn lemma_int_moves_len(x: Seq<int>, i: nat)
    requires
        x.len() == 37,
    ensures
        int_moves(x, i).len() == 37,
    decreases i,
{
    if i > 0 {
        lemma_int_moves_len(x, (i - 1) as nat);
    }
}

proof fn lemma_int_moves_add(a: Seq<int>, b: Seq<int>, i: nat)
    requires
        a.len() == 37,
        b.len() == 37,
        i <= 30,
    ensures
        int_moves(vadd(a, b), i) == vadd(int_moves(a, i), int_moves(b, i)),
    decreases i,
{
    if i > 0 {
        lemma_int_moves_add(a, b, (i - 1) as nat);
        crate::laws::lemma_moves_geometry();
        lemma_int_moves_len(a, (i - 1) as nat);
        lemma_int_moves_len(b, (i - 1) as nat);
        let pa = int_moves(a, (i - 1) as nat);
        let pb = int_moves(b, (i - 1) as nat);
        let t = moves()[i - 1].0;
        let p = moves()[i - 1].1;
        assert(add_flower(vadd(pa, pb), p, -vadd(pa, pb)[t]) =~= vadd(
            add_flower(pa, p, -pa[t]),
            add_flower(pb, p, -pb[t]),
        ));
    }
}

proof fn lemma_int_fixup_add(a: Seq<int>, b: Seq<int>)
    requires
        a.len() == 37,
        b.len() == 37,
    ensures
        int_fixup(vadd(a, b)) == vadd(int_fixup(a), int_fixup(b)),
{
    assert(int_fixup(vadd(a, b)) =~= vadd(int_fixup(a), int_fixup(b)));
}

/// The integer procedure is additive.
pub proof fn lemma_residual_add(a: Seq<int>, b: Seq<int>)
    requires
        a.len() == 37,
        b.len() == 37,
    ensures
        residual(vadd(a, b)) == vadd(residual(a), residual(b)),
{
    lemma_int_moves_add(a, b, 30);
    lemma_int_moves_len(a, 30);
    lemma_int_moves_len(b, 30);
    lemma_int_fixup_add(int_moves(a, 30), int_moves(b, 30));
    lemma_int_moves_add(int_fixup(int_moves(a, 30)), int_fixup(int_moves(b, 30)), 30);
}

proof fn lemma_residual_len(x: Seq<int>)
    requires
        x.len() == 37,
    ensures
        residual(x).len() == 37,
{
    lemma_int_moves_len(x, 30);
    lemma_int_moves_len(int_fixup(int_moves(x, 30)), 30);
}

/// The integer procedure commutes with scaling by a natural number.
pub proof fn lemma_residual_scale(l: nat, a: Seq<int>)
    requires
        a.len() == 37,
    ensures
        residual(vscale(l as int, a)) == vscale(l as int, residual(a)),
    decreases l,
{
    lemma_residual_len(a);
    if l == 0 {
        assert(vscale(0, a) =~= vadd(vscale(0, a), vscale(0, a)));
        lemma_residual_add(vscale(0, a), vscale(0, a));
        lemma_residual_len(vscale(0, a));
        assert(residual(vscale(0, a)) =~= vscale(0, residual(a))) by {
            assert forall|k: int| 0 <= k < 37 implies #[trigger] residual(vscale(0, a))[k] == 0 by {
                assert(residual(vscale(0, a))[k] == residual(vscale(0, a))[k] + residual(vscale(0, a))[k]);
            }
        }
    } else {
        lemma_residual_scale((l - 1) as nat, a);
        assert(vscale(l as int, a) =~= vadd(vscale(l - 1, a), a)) by {
            assert forall|k: int| 0 <= k < 37 implies #[trigger] vscale(l as int, a)[k] == vadd(vscale(l - 1, a), a)[k] by {
                assert(l * a[k] == (l - 1) * a[k] + a[k]) by (nonlinear_arith);
            }
        }
        lemma_residual_add(vscale(l - 1, a), a);
        assert(vadd(vscale(l - 1, residual(a)), residual(a)) =~= vscale(l as int, residual(a))) by {
            assert forall|k: int| 0 <= k < 37 implies #[trigger] vscale(l as int, residual(a))[k] == vadd(vscale(l - 1, residual(a)), residual(a))[k] by {
                assert(l * residual(a)[k] == (l - 1) * residual(a)[k] + residual(a)[k]) by (nonlinear_arith);
            }
        }
    }
}

proof fn lemma_mod_shift(v: int, w: int)
    ensures
        (v % 6 + (0 - w % 6) % 6) % 6 == (v - w) % 6,
{
    vstd::arithmetic::div_mod::lemma_sub_mod_noop(0, w, 6);
    vstd::arithmetic::div_mod::lemma_add_mod_noop(v, 0 - w, 6);
    vstd::arithmetic::div_mod::lemma_mod_twice(v, 6);
    vstd::arithmetic::div_mod::lemma_mod_twice(0 - w, 6);
}

/// The moves of the partial solve give, mod 6, what the integer moves give.
proof fn lemma_after_moves_mod(x: Seq<int>, c: Seq<int>, i: nat)
    requires
        x.len() == 37,
        i <= 30,
    ensures
        after_moves((mod6(x), c), i).0 == mod6(int_moves(x, i)),
    decreases i,
{
    if i > 0 {
        lemma_after_moves_mod(x, c, (i - 1) as nat);
        crate::laws::lemma_moves_geometry();
        lemma_int_moves_len(x, (i - 1) as nat);
        let prev = int_moves(x, (i - 1) as nat);
        let t = moves()[i - 1].0;
        let p = moves()[i - 1].1;
        let st = after_moves((mod6(x), c), (i - 1) as nat);
        assert forall|k: int| 0 <= k < 37 implies #[trigger] after_moves((mod6(x), c), i).0[k] == mod6(int_moves(x, i))[k] by {
            if flower_at(p, k) {
                lemma_mod_shift(prev[k], prev[t]);
            }
        }
        assert(after_moves((mod6(x), c), i).0 =~= mod6(int_moves(x, i)));
    }
}

proof fn lemma_mod_add(v: int, w: int)
    ensures
        (v % 6 + w) % 6 == (v + w) % 6,
{
    vstd::arithmetic::div_mod::lemma_add_mod_noop(v, w, 6);
    vstd::arithmetic::div_mod::lemma_add_mod_noop(v % 6, w, 6);
    vstd::arithmetic::div_mod::lemma_mod_twice(v, 6);
}

proof fn lemma_congruent_add(y: int, n: int, m: int)
    requires
        n % 6 == m % 6,
    ensures
        (y % 6 + n) % 6 == (y + m) % 6,
{
    lemma_mod_add(y, n);
    vstd::arithmetic::div_mod::lemma_fundamental_div_mod(n, 6);
    vstd::arithmetic::div_mod::lemma_fundamental_div_mod(m, 6);
    vstd::arithmetic::div_mod::lemma_mod_multiples_vanish(n / 6 - m / 6, y + m, 6);
    assert(y + n == 6 * (n / 6 - m / 6) + (y + m));
}

/// Poking a reduced board `n` times gives, mod 6, what adding any `m` congruent to `n`
/// gives over the integers.
proof fn lemma_shifted_mod(y: Seq<int>, p: int, n: int, m: int)
    requires
        y.len() == 37,
        n % 6 == m % 6,
    ensures
        crate::expert::shifted(mod6(y), p, n) == mod6(add_flower(y, p, m)),
{
    assert forall|k: int| 0 <= k < 37 implies #[trigger] crate::expert::shifted(mod6(y), p, n)[k] == mod6(add_flower(y, p, m))[k] by {
        if flower_at(p, k) {
            lemma_congruent_add(y[k], n, m);
        } else {
            vstd::arithmetic::div_mod::lemma_mod_twice(y[k], 6);
        }
    }
    assert(crate::expert::shifted(mod6(y), p, n) =~= mod6(add_flower(y, p, m)));
}

proof fn lemma_parity(u: int, v: int)
    ensures
        (if (u % 6 + v % 6) % 2 == 0 { 0int } else { 3int }) % 6 == (3 * (u + v)) % 6,
{
    let q = u / 6 + v / 6;
    vstd::arithmetic::div_mod::lemma_fundamental_div_mod(u, 6);
    vstd::arithmetic::div_mod::lemma_fundamental_div_mod(v, 6);
    assert(u % 6 + v % 6 == (u + v) + 2 * (-3 * q));
    vstd::arithmetic::div_mod::lemma_mod_multiples_vanish(-3 * q, u + v, 2);
    let h = (u + v) / 2;
    let r = (u + v) % 2;
    vstd::arithmetic::div_mod::lemma_fundamental_div_mod(u + v, 2);
    assert(3 * (u + v) == 6 * h + 3 * r);
    vstd::arithmetic::div_mod::lemma_mod_multiples_vanish(h, 3 * r, 6);
}

proof fn lemma_neg_mod(w: int)
    ensures
        ((0 - w % 6) % 6) % 6 == (0 - w) % 6,
{
    vstd::arithmetic::div_mod::lemma_sub_mod_noop(0, w, 6);
    vstd::arithmetic::div_mod::lemma_mod_twice(0 - w % 6, 6);
}

/// The correction of the border cells gives, mod 6, what the integer correction gives.
proof fn lemma_fixup_mod(x: Seq<int>, c: Seq<int>)
    requires
        x.len() == 37,
    ensures
        fixup((mod6(x), c)).0 == mod6(int_fixup(x)),
{
    let m = mod6(x);
    let d6 = m[21];
    let e6 = m[27];
    let f6 = m[32];
    let a = e6 % 6 + (0 - d6) % 6;
    let b_d = (0 - e6) % 6;
    let cc = if (d6 + f6) % 2 == 0 {
        0int
    } else {
        3int
    };
    let ia = x[27] - x[21];
    let ib = -x[27];
    let ic = 3 * (x[21] + x[32]);
    assert(a % 6 == ia % 6) by {
        vstd::arithmetic::div_mod::lemma_mod_twice(x[27], 6);
        lemma_neg_mod(x[21]);
        vstd::arithmetic::div_mod::lemma_add_mod_noop(x[27] % 6, (0 - x[21] % 6) % 6, 6);
        vstd::arithmetic::div_mod::lemma_add_mod_noop(x[27], 0 - x[21], 6);
        vstd::arithmetic::div_mod::lemma_mod_twice(0 - x[21], 6);
    }
    assert(b_d % 6 == ib % 6) by {
        lemma_neg_mod(x[27]);
    }
    assert(cc % 6 == ic % 6) by {
        lemma_parity(x[21], x[32]);
    }
    let y1 = add_flower(x, 0, ia);
    let y2 = add_flower(y1, 1, ib);
    let y3 = add_flower(y2, 2, ic);
    lemma_shifted_mod(x, 0, a, ia);
    lemma_shifted_mod(y1, 1, b_d, ib);
    lemma_shifted_mod(y2, 2, cc, ic);
    lemma_shifted_mod(y3, 3, b_d, ib);
}

/// The values `x` with the pokes `c` added, over the integers.
pub open spec fn with_pokes(x: Seq<int>, c: Seq<int>) -> Seq<int> {
    Seq::new(37, |k: int| x[k] + flower_sum(c, k))
}

/// The pokes of the first `i` integer moves, added to `c`, on the values `x` with `c`
/// already poked.
pub open spec fn count_moves(x: Seq<int>, c: Seq<int>, i: nat) -> Seq<int>
    decreases i,
{
    if i == 0 {
        c
    } else {
        let prev = count_moves(x, c, (i - 1) as nat);
        let t = moves()[i - 1].0;
        let p = moves()[i - 1].1;
        prev.update(p, prev[p] - (x[t] + flower_sum(prev, t)))
    }
}

pub open spec fn count_fixup(x: Seq<int>, c: Seq<int>) -> Seq<int> {
    let d6 = x[21] + flower_sum(c, 21);
    let e6 = x[27] + flower_sum(c, 27);
    let f6 = x[32] + flower_sum(c, 32);
    let c1 = c.update(0, c[0] + (e6 - d6));
    let c2 = c1.update(1, c1[1] - e6);
    let c3 = c2.update(2, c2[2] + 3 * (d6 + f6));
    c3.update(3, c3[3] - e6)
}

pub open spec fn residual_counts(x: Seq<int>) -> Seq<int> {
    count_moves(x, count_fixup(x, count_moves(x, Seq::new(37, |k: int| 0int), 30)), 30)
}

proof fn lemma_with_pokes_update(x: Seq<int>, c: Seq<int>, p: int, n: int)
    requires
        x.len() == 37,
        c.len() == 37,
        0 <= p < 37,
    ensures
        with_pokes(x, c.update(p, c[p] + n)) == add_flower(with_pokes(x, c), p, n),
{
    assert forall|k: int| 0 <= k < 37 implies #[trigger] with_pokes(x, c.update(p, c[p] + n))[k] == add_flower(with_pokes(x, c), p, n)[k] by {
        crate::laws::lemma_flower_sum_update(c, p, n, k);
    }
    assert(with_pokes(x, c.update(p, c[p] + n)) =~= add_flower(with_pokes(x, c), p, n));
}

proof fn lemma_count_moves(x: Seq<int>, c: Seq<int>, i: nat)
    requires
        x.len() == 37,
        c.len() == 37,
        i <= 30,
    ensures
        int_moves(with_pokes(x, c), i) == with_pokes(x, count_moves(x, c, i)),
        count_moves(x, c, i).len() == 37,
    decreases i,
{
    if i > 0 {
        lemma_count_moves(x, c, (i - 1) as nat);
        crate::laws::lemma_moves_geometry();
        let prev = count_moves(x, c, (i - 1) as nat);
        let t = moves()[i - 1].0;
        let p = moves()[i - 1].1;
        let n = -(x[t] + flower_sum(prev, t));
        lemma_with_pokes_update(x, prev, p, n);
        assert(prev.update(p, prev[p] - (x[t] + flower_sum(prev, t))) == prev.update(p, prev[p] + n));
    }
}

proof fn lemma_count_fixup(x: Seq<int>, c: Seq<int>)
    requires
        x.len() == 37,
        c.len() == 37,
    ensures
        int_fixup(with_pokes(x, c)) == with_pokes(x, count_fixup(x, c)),
        count_fixup(x, c).len() == 37,
{
    let w = with_pokes(x, c);
    let d6 = x[21] + flower_sum(c, 21);
    let e6 = x[27] + flower_sum(c, 27);
    let f6 = x[32] + flower_sum(c, 32);
    let c1 = c.update(0, c[0] + (e6 - d6));
    let c2 = c1.update(1, c1[1] + (-e6));
    let c3 = c2.update(2, c2[2] + 3 * (d6 + f6));
    let c4 = c3.update(3, c3[3] + (-e6));
    lemma_with_pokes_update(x, c, 0, e6 - d6);
    lemma_with_pokes_update(x, c1, 1, -e6);
    lemma_with_pokes_update(x, c2, 2, 3 * (d6 + f6));
    lemma_with_pokes_update(x, c3, 3, -e6);
    assert(c1.update(1, c1[1] - e6) == c2);
    assert(c3.update(3, c3[3] - e6) == c4);
}

/// What the integer procedure leaves of `x` is `x` with its counts poked.
pub proof fn lemma_residual_counts(x: Seq<int>)
    requires
        x.len() == 37,
    ensures
        residual(x) == with_pokes(x, residual_counts(x)),
{
    let z = Seq::new(37, |k: int| 0int);
    assert(with_pokes(x, z) =~= x);
    lemma_count_moves(x, z, 30);
    let c1 = count_moves(x, z, 30);
    lemma_count_fixup(x, c1);
    lemma_count_moves(x, count_fixup(x, c1), 30);
}

/// The board that one poke at the cell `j` leaves on an aligned board.
pub open spec fn flower_board(j: int) -> Seq<int> {
    Seq::new(37, |k: int| if flower_at(j, k) { 1int } else { 0int })
}

/// The zero board.
pub open spec fn zeros() -> Seq<int> {
    Seq::new(37, |k: int| 0int)
}

proof fn lemma_int_moves_zeros(i: nat)
    requires
        i <= 30,
    ensures
        int_moves(zeros(), i) == zeros(),
    decreases i,
{
    if i > 0 {
        lemma_int_moves_zeros((i - 1) as nat);
        assert(add_flower(zeros(), moves()[i - 1].1, 0) =~= zeros());
    }
}

/// The moves of the partial solve leave the flower of the poke cell of move `m` until
/// move `m`, and clear it then.
proof fn lemma_int_moves_flower(m: int, i: nat)
    requires
        0 <= m < 30,
        i <= 30,
    ensures
        int_moves(flower_board(moves()[m].1), i) == if i <= m {
            flower_board(moves()[m].1)
        } else {
            zeros()
        },
    decreases i,
{
    crate::laws::lemma_moves_geometry();
    let f = flower_board(moves()[m].1);
    if i > 0 {
        lemma_int_moves_flower(m, (i - 1) as nat);
        let t = moves()[i - 1].0;
        let p = moves()[i - 1].1;
        if i - 1 < m {
            assert(!flower_at(moves()[m].1, moves()[i - 1].0));
            assert(add_flower(f, p, -f[t]) =~= f);
        } else if i - 1 == m {
            assert(add_flower(f, p, -f[t]) =~= zeros());
        } else {
            assert(add_flower(zeros(), p, 0) =~= zeros());
        }
    }
}

/// The flower of a poke cell of the partial solve leaves nothing.
proof fn lemma_residual_poke_cell(m: int)
    requires
        0 <= m < 30,
    ensures
        residual(flower_board(moves()[m].1)) == zeros(),
{
    lemma_int_moves_flower(m, 30);
    assert(int_fixup(zeros()) =~= zeros());
    lemma_int_moves_zeros(30);
}

/// The move whose poke cell is `n`.
spec fn move_poking(n: int) -> int {
    if n == 5 {
        0
    } else if n == 6 {
        1
    } else if n == 7 {
        2
    } else if n == 8 {
        3
    } else if n == 10 {
        4
    } else if n == 16 {
        5
    } else if n == 22 {
        6
    } else if n == 11 {
        7
    } else if n == 12 {
        8
    } else if n == 13 {
        9
    } else if n == 14 {
        10
    } else if n == 17 {
        11
    } else if n == 23 {
        12
    } else if n == 28 {
        13
    } else if n == 18 {
        14
    } else if n == 19 {
        15
    } else if n == 20 {
        16
    } else if n == 21 {
        17
    } else if n == 24 {
        18
    } else if n == 29 {
        19
    } else if n == 33 {
        20
    } else if n == 25 {
        21
    } else if n == 26 {
        22
    } else if n == 27 {
        23
    } else if n == 30 {
        24
    } else if n == 34 {
        25
    } else if n == 31 {
        26
    } else if n == 32 {
        27
    } else if n == 35 {
        28
    } else if n == 36 {
        29
    } else {
        0
    }
}

/// The flower of every cell leaves a multiple of 6 in every cell.
proof fn lemma_residual_flower(n: int)
    requires
        0 <= n < 37,
    ensures
        forall|k: int| 0 <= k < 37 ==> #[trigger] residual(flower_board(n))[k] % 6 == 0,
{
    if n == 0 {
        lemma_basis_residual_0();
    } else if n == 1 {
        lemma_basis_residual_1();
    } else if n == 2 {
        lemma_basis_residual_2();
    } else if n == 3 {
        lemma_basis_residual_3();
    } else if n == 4 {
        lemma_basis_residual_4();
    } else if n == 9 {
        lemma_basis_residual_9();
    } else if n == 15 {
        lemma_basis_residual_15();
    } else {
        let m = move_poking(n);
        assert(0 <= m < 30 && moves()[m].1 == n);
        lemma_residual_poke_cell(m);
    }
}

/// The flower of cell 0 leaves a multiple of 6 in every cell: the integer
/// procedure followed count by count.
#[verifier::rlimit(100)]
proof fn lemma_basis_residual_0()
    ensures
        forall|k: int| 0 <= k < 37 ==> #[trigger] residual(flower_board(0))[k] % 6 == 0,
{
    let x = flower_board(0);
    let c0 = Seq::new(37, |k: int| 0int);
    assert(count_moves(x, c0, 0) == c0);
    let c1 = c0.update(5, -1int);
    assert(count_moves(x, c0, 1) == c1);
    let c2 = c1.update(6, 0int);
    assert(count_moves(x, c0, 2) == c2);
    let c3 = c2.update(7, 0int);
    assert(count_moves(x, c0, 3) == c3);
    let c4 = c3.update(8, 0int);
    assert(count_moves(x, c0, 4) == c4);
    let c5 = c4.update(10, 0int);
    assert(count_moves(x, c0, 5) == c5);
    let c6 = c5.update(16, 0int);
    assert(count_moves(x, c0, 6) == c6);
    let c7 = c6.update(22, 0int);
    assert(count_moves(x, c0, 7) == c7);
    let c8 = c7.update(11, 0int);
    assert(count_moves(x, c0, 8) == c8);
    let c9 = c8.update(12, 1int);
    assert(count_moves(x, c0, 9) == c9);
    let c10 = c9.update(13, -1int);
    assert(count_moves(x, c0, 10) == c10);
    let c11 = c10.update(14, 1int);
    assert(count_moves(x, c0, 11) == c11);
    let c12 = c11.update(17, 1int);
    assert(count_moves(x, c0, 12) == c12);
    let c13 = c12.update(23, -1int);
    assert(count_moves(x, c0, 13) == c13);
    let c14 = c13.update(28, 1int);
    assert(count_moves(x, c0, 14) == c14);
    let c15 = c14.update(18, -1int);
    assert(count_moves(x, c0, 15) == c15);
    let c16 = c15.update(19, 1int);
    assert(count_moves(x, c0, 16) == c16);
    let c17 = c16.update(20, -2int);
    assert(count_moves(x, c0, 17) == c17);
    let c18 = c17.update(21, 2int);
    assert(count_moves(x, c0, 18) == c18);
    let c19 = c18.update(24, 1int);
    assert(count_moves(x, c0, 19) == c19);
    let c20 = c19.update(29, -2int);
    assert(count_moves(x, c0, 20) == c20);
    let c21 = c20.update(33, 2int);
    assert(count_moves(x, c0, 21) == c21);
    let c22 = c21.update(25, -3int);
    assert(count_moves(x, c0, 22) == c22);
    let c23 = c22.update(26, 5int);
    assert(count_moves(x, c0, 23) == c23);
    let c24 = c23.update(27, -6int);
    assert(count_moves(x, c0, 24) == c24);
    let c25 = c24.update(30, 5int);
    assert(count_moves(x, c0, 25) == c25);
    let c26 = c25.update(34, -6int);
    assert(count_moves(x, c0, 26) == c26);
    let c27 = c26.update(31, -8int);
    assert(count_moves(x, c0, 27) == c27);
    let c28 = c27.update(32, 13int);
    assert(count_moves(x, c0, 28) == c28);
    let c29 = c28.update(35, 13int);
    assert(count_moves(x, c0, 29) == c29);
    let c30 = c29.update(36, -25int);
    assert(count_moves(x, c0, 30) == c30);
    let g0 = c30.update(0, 17int).update(1, -12int).update(2, -78int).update(3, -12int);
    assert(count_fixup(x, c30) == g0);
    assert(count_moves(x, g0, 0) == g0);
    let g1 = g0.update(5, -6int);
    assert(count_moves(x, g0, 1) == g1);
    let g2 = g1.update(6, 78int);
    assert(count_moves(x, g0, 2) == g2);
    let g3 = g2.update(7, 24int);
    assert(count_moves(x, g0, 3) == g3);
    let g4 = g3.update(8, 66int);
    assert(count_moves(x, g0, 4) == g4);
    let g5 = g4.update(10, -12int);
    assert(count_moves(x, g0, 5) == g5);
    let g6 = g5.update(16, 12int);
    assert(count_moves(x, g0, 6) == g6);
    let g7 = g6.update(22, -12int);
    assert(count_moves(x, g0, 7) == g7);
    let g8 = g7.update(11, -66int);
    assert(count_moves(x, g0, 8) == g8);
    let g9 = g8.update(12, 60int);
    assert(count_moves(x, g0, 9) == g9);
    let g10 = g9.update(13, -138int);
    assert(count_moves(x, g0, 10) == g10);
    let g11 = g10.update(14, 60int);
    assert(count_moves(x, g0, 11) == g11);
    let g12 = g11.update(17, 72int);
    assert(count_moves(x, g0, 12) == g12);
    let g13 = g12.update(23, -60int);
    assert(count_moves(x, g0, 13) == g13);
    let g14 = g13.update(28, 60int);
    assert(count_moves(x, g0, 14) == g14);
    let g15 = g14.update(18, -126int);
    assert(count_moves(x, g0, 15) == g15);
    let g16 = g15.update(19, 168int);
    assert(count_moves(x, g0, 16) == g16);
    let g17 = g16.update(20, -240int);
    assert(count_moves(x, g0, 17) == g17);
    let g18 = g17.update(21, 252int);
    assert(count_moves(x, g0, 18) == g18);
    let g19 = g18.update(24, 180int);
    assert(count_moves(x, g0, 19) == g19);
    let g20 = g19.update(29, -252int);
    assert(count_moves(x, g0, 20) == g20);
    let g21 = g20.update(33, 264int);
    assert(count_moves(x, g0, 21) == g21);
    let g22 = g21.update(25, -288int);
    assert(count_moves(x, g0, 22) == g22);
    let g23 = g22.update(26, 564int);
    assert(count_moves(x, g0, 23) == g23);
    let g24 = g23.update(27, -666int);
    assert(count_moves(x, g0, 24) == g24);
    let g25 = g24.update(30, 474int);
    assert(count_moves(x, g0, 25) == g25);
    let g26 = g25.update(34, -666int);
    assert(count_moves(x, g0, 26) == g26);
    let g27 = g26.update(31, -972int);
    assert(count_moves(x, g0, 27) == g27);
    let g28 = g27.update(32, 1434int);
    assert(count_moves(x, g0, 28) == g28);
    let g29 = g28.update(35, 1524int);
    assert(count_moves(x, g0, 29) == g29);
    let g30 = g29.update(36, -2736int);
    assert(count_moves(x, g0, 30) == g30);
    assert(residual_counts(x) == g30);
    lemma_residual_counts(x);
    assert(with_pokes(x, g30)[0] == 0int);
    assert(with_pokes(x, g30)[1] == 0int);
    assert(with_pokes(x, g30)[2] == 0int);
    assert(with_pokes(x, g30)[3] == 0int);
    assert(with_pokes(x, g30)[4] == 0int);
    assert(with_pokes(x, g30)[5] == 0int);
    assert(with_pokes(x, g30)[6] == 0int);
    assert(with_pokes(x, g30)[7] == 0int);
    assert(with_pokes(x, g30)[8] == 0int);
    assert(with_pokes(x, g30)[9] == 0int);
    assert(with_pokes(x, g30)[10] == 0int);
    assert(with_pokes(x, g30)[11] == 0int);
    assert(with_pokes(x, g30)[12] == 0int);
    assert(with_pokes(x, g30)[13] == 0int);
    assert(with_pokes(x, g30)[14] == 0int);
    assert(with_pokes(x, g30)[15] == 0int);
    assert(with_pokes(x, g30)[16] == 0int);
    assert(with_pokes(x, g30)[17] == 0int);
    assert(with_pokes(x, g30)[18] == 0int);
    assert(with_pokes(x, g30)[19] == 0int);
    assert(with_pokes(x, g30)[20] == 0int);
    assert(with_pokes(x, g30)[21] == -594int);
    assert(with_pokes(x, g30)[22] == 0int);
    assert(with_pokes(x, g30)[23] == 0int);
    assert(with_pokes(x, g30)[24] == 0int);
    assert(with_pokes(x, g30)[25] == 0int);
    assert(with_pokes(x, g30)[26] == 0int);
    assert(with_pokes(x, g30)[27] == 1344int);
    assert(with_pokes(x, g30)[28] == 0int);
    assert(with_pokes(x, g30)[29] == 0int);
    assert(with_pokes(x, g30)[30] == 0int);
    assert(with_pokes(x, g30)[31] == 0int);
    assert(with_pokes(x, g30)[32] == -2376int);
    assert(with_pokes(x, g30)[33] == -594int);
    assert(with_pokes(x, g30)[34] == 1344int);
    assert(with_pokes(x, g30)[35] == -2376int);
    assert(with_pokes(x, g30)[36] == -750int);
}


/// The flower of cell 1 leaves a multiple of 6 in every cell: the integer
/// procedure followed count by count.
#[verifier::rlimit(100)]
proof fn lemma_basis_residual_1()
    ensures
        forall|k: int| 0 <= k < 37 ==> #[trigger] residual(flower_board(1))[k] % 6 == 0,
{
    let x = flower_board(1);
    let c0 = Seq::new(37, |k: int| 0int);
    assert(count_moves(x, c0, 0) == c0);
    let c1 = c0.update(5, -1int);
    assert(count_moves(x, c0, 1) == c1);
    let c2 = c1.update(6, 0int);
    assert(count_moves(x, c0, 2) == c2);
    let c3 = c2.update(7, -1int);
    assert(count_moves(x, c0, 3) == c3);
    let c4 = c3.update(8, 1int);
    assert(count_moves(x, c0, 4) == c4);
    let c5 = c4.update(10, 1int);
    assert(count_moves(x, c0, 5) == c5);
    let c6 = c5.update(16, -1int);
    assert(count_moves(x, c0, 6) == c6);
    let c7 = c6.update(22, 1int);
    assert(count_moves(x, c0, 7) == c7);
    let c8 = c7.update(11, -1int);
    assert(count_moves(x, c0, 8) == c8);
    let c9 = c8.update(12, 2int);
    assert(count_moves(x, c0, 9) == c9);
    let c10 = c9.update(13, -2int);
    assert(count_moves(x, c0, 10) == c10);
    let c11 = c10.update(14, 2int);
    assert(count_moves(x, c0, 11) == c11);
    let c12 = c11.update(17, 2int);
    assert(count_moves(x, c0, 12) == c12);
    let c13 = c12.update(23, -3int);
    assert(count_moves(x, c0, 13) == c13);
    let c14 = c13.update(28, 3int);
    assert(count_moves(x, c0, 14) == c14);
    let c15 = c14.update(18, -3int);
    assert(count_moves(x, c0, 15) == c15);
    let c16 = c15.update(19, 5int);
    assert(count_moves(x, c0, 16) == c16);
    let c17 = c16.update(20, -7int);
    assert(count_moves(x, c0, 17) == c17);
    let c18 = c17.update(21, 6int);
    assert(count_moves(x, c0, 18) == c18);
    let c19 = c18.update(24, 5int);
    assert(count_moves(x, c0, 19) == c19);
    let c20 = c19.update(29, -7int);
    assert(count_moves(x, c0, 20) == c20);
    let c21 = c20.update(33, 6int);
    assert(count_moves(x, c0, 21) == c21);
    let c22 = c21.update(25, -10int);
    assert(count_moves(x, c0, 22) == c22);
    let c23 = c22.update(26, 15int);
    assert(count_moves(x, c0, 23) == c23);
    let c24 = c23.update(27, -19int);
    assert(count_moves(x, c0, 24) == c24);
    let c25 = c24.update(30, 16int);
    assert(count_moves(x, c0, 25) == c25);
    let c26 = c25.update(34, -20int);
    assert(count_moves(x, c0, 26) == c26);
    let c27 = c26.update(31, -28int);
    assert(count_moves(x, c0, 27) == c27);
    let c28 = c27.update(32, 44int);
    assert(count_moves(x, c0, 28) == c28);
    let c29 = c28.update(35, 44int);
    assert(count_moves(x, c0, 29) == c29);
    let c30 = c29.update(36, -81int);
    assert(count_moves(x, c0, 30) == c30);
    let g0 = c30.update(0, 57int).update(1, -39int).update(2, -261int).update(3, -39int);
    assert(count_fixup(x, c30) == g0);
    assert(count_moves(x, g0, 0) == g0);
    let g1 = g0.update(5, -19int);
    assert(count_moves(x, g0, 1) == g1);
    let g2 = g1.update(6, 261int);
    assert(count_moves(x, g0, 2) == g2);
    let g3 = g2.update(7, 77int);
    assert(count_moves(x, g0, 3) == g3);
    let g4 = g3.update(8, 223int);
    assert(count_moves(x, g0, 4) == g4);
    let g5 = g4.update(10, -38int);
    assert(count_moves(x, g0, 5) == g5);
    let g6 = g5.update(16, 38int);
    assert(count_moves(x, g0, 6) == g6);
    let g7 = g6.update(22, -38int);
    assert(count_moves(x, g0, 7) == g7);
    let g8 = g7.update(11, -223int);
    assert(count_moves(x, g0, 8) == g8);
    let g9 = g8.update(12, 203int);
    assert(count_moves(x, g0, 9) == g9);
    let g10 = g9.update(13, -464int);
    assert(count_moves(x, g0, 10) == g10);
    let g11 = g10.update(14, 203int);
    assert(count_moves(x, g0, 11) == g11);
    let g12 = g11.update(17, 242int);
    assert(count_moves(x, g0, 12) == g12);
    let g13 = g12.update(23, -204int);
    assert(count_moves(x, g0, 13) == g13);
    let g14 = g13.update(28, 204int);
    assert(count_moves(x, g0, 14) == g14);
    let g15 = g14.update(18, -426int);
    assert(count_moves(x, g0, 15) == g15);
    let g16 = g15.update(19, 572int);
    assert(count_moves(x, g0, 16) == g16);
    let g17 = g16.update(20, -814int);
    assert(count_moves(x, g0, 17) == g17);
    let g18 = g17.update(21, 852int);
    assert(count_moves(x, g0, 18) == g18);
    let g19 = g18.update(24, 611int);
    assert(count_moves(x, g0, 19) == g19);
    let g20 = g19.update(29, -853int);
    assert(count_moves(x, g0, 20) == g20);
    let g21 = g20.update(33, 891int);
    assert(count_moves(x, g0, 21) == g21);
    let g22 = g21.update(25, -979int);
    assert(count_moves(x, g0, 22) == g22);
    let g23 = g22.update(26, 1908int);
    assert(count_moves(x, g0, 23) == g23);
    let g24 = g23.update(27, -2257int);
    assert(count_moves(x, g0, 24) == g24);
    let g25 = g24.update(30, 1609int);
    assert(count_moves(x, g0, 25) == g25);
    let g26 = g25.update(34, -2258int);
    assert(count_moves(x, g0, 26) == g26);
    let g27 = g26.update(31, -3295int);
    assert(count_moves(x, g0, 27) == g27);
    let g28 = g27.update(32, 4865int);
    assert(count_moves(x, g0, 28) == g28);
    let g29 = g28.update(35, 5165int);
    assert(count_moves(x, g0, 29) == g29);
    let g30 = g29.update(36, -9273int);
    assert(count_moves(x, g0, 30) == g30);
    assert(residual_counts(x) == g30);
    lemma_residual_counts(x);
    assert(with_pokes(x, g30)[0] == 0int);
    assert(with_pokes(x, g30)[1] == 0int);
    assert(with_pokes(x, g30)[2] == 0int);
    assert(with_pokes(x, g30)[3] == 0int);
    assert(with_pokes(x, g30)[4] == 0int);
    assert(with_pokes(x, g30)[5] == 0int);
    assert(with_pokes(x, g30)[6] == 0int);
    assert(with_pokes(x, g30)[7] == 0int);
    assert(with_pokes(x, g30)[8] == 0int);
    assert(with_pokes(x, g30)[9] == 0int);
    assert(with_pokes(x, g30)[10] == 0int);
    assert(with_pokes(x, g30)[11] == 0int);
    assert(with_pokes(x, g30)[12] == 0int);
    assert(with_pokes(x, g30)[13] == 0int);
    assert(with_pokes(x, g30)[14] == 0int);
    assert(with_pokes(x, g30)[15] == 0int);
    assert(with_pokes(x, g30)[16] == 0int);
    assert(with_pokes(x, g30)[17] == 0int);
    assert(with_pokes(x, g30)[18] == 0int);
    assert(with_pokes(x, g30)[19] == 0int);
    assert(with_pokes(x, g30)[20] == 0int);
    assert(with_pokes(x, g30)[21] == -2016int);
    assert(with_pokes(x, g30)[22] == 0int);
    assert(with_pokes(x, g30)[23] == 0int);
    assert(with_pokes(x, g30)[24] == 0int);
    assert(with_pokes(x, g30)[25] == 0int);
    assert(with_pokes(x, g30)[26] == 0int);
    assert(with_pokes(x, g30)[27] == 4554int);
    assert(with_pokes(x, g30)[28] == 0int);
    assert(with_pokes(x, g30)[29] == 0int);
    assert(with_pokes(x, g30)[30] == 0int);
    assert(with_pokes(x, g30)[31] == 0int);
    assert(with_pokes(x, g30)[32] == -8052int);
    assert(with_pokes(x, g30)[33] == -2016int);
    assert(with_pokes(x, g30)[34] == 4554int);
    assert(with_pokes(x, g30)[35] == -8052int);
    assert(with_pokes(x, g30)[36] == -2538int);
}


/// The flower of cell 2 leaves a multiple of 6 in every cell: the integer
/// procedure followed count by count.
#[verifier::rlimit(100)]
proof fn lemma_basis_residual_2()
    ensures
        forall|k: int| 0 <= k < 37 ==> #[trigger] residual(flower_board(2))[k] % 6 == 0,
{
    let x = flower_board(2);
    let c0 = Seq::new(37, |k: int| 0int);
    assert(count_moves(x, c0, 0) == c0);
    let c1 = c0.update(5, 0int);
    assert(count_moves(x, c0, 1) == c1);
    let c2 = c1.update(6, -1int);
    assert(count_moves(x, c0, 2) == c2);
    let c3 = c2.update(7, 0int);
    assert(count_moves(x, c0, 3) == c3);
    let c4 = c3.update(8, -1int);
    assert(count_moves(x, c0, 4) == c4);
    let c5 = c4.update(10, 0int);
    assert(count_moves(x, c0, 5) == c5);
    let c6 = c5.update(16, 0int);
    assert(count_moves(x, c0, 6) == c6);
    let c7 = c6.update(22, 0int);
    assert(count_moves(x, c0, 7) == c7);
    let c8 = c7.update(11, 1int);
    assert(count_moves(x, c0, 8) == c8);
    let c9 = c8.update(12, -1int);
    assert(count_moves(x, c0, 9) == c9);
    let c10 = c9.update(13, 2int);
    assert(count_moves(x, c0, 10) == c10);
    let c11 = c10.update(14, -1int);
    assert(count_moves(x, c0, 11) == c11);
    let c12 = c11.update(17, -1int);
    assert(count_moves(x, c0, 12) == c12);
    let c13 = c12.update(23, 1int);
    assert(count_moves(x, c0, 13) == c13);
    let c14 = c13.update(28, -1int);
    assert(count_moves(x, c0, 14) == c14);
    let c15 = c14.update(18, 2int);
    assert(count_moves(x, c0, 15) == c15);
    let c16 = c15.update(19, -3int);
    assert(count_moves(x, c0, 16) == c16);
    let c17 = c16.update(20, 4int);
    assert(count_moves(x, c0, 17) == c17);
    let c18 = c17.update(21, -4int);
    assert(count_moves(x, c0, 18) == c18);
    let c19 = c18.update(24, -3int);
    assert(count_moves(x, c0, 19) == c19);
    let c20 = c19.update(29, 4int);
    assert(count_moves(x, c0, 20) == c20);
    let c21 = c20.update(33, -4int);
    assert(count_moves(x, c0, 21) == c21);
    let c22 = c21.update(25, 5int);
    assert(count_moves(x, c0, 22) == c22);
    let c23 = c22.update(26, -9int);
    assert(count_moves(x, c0, 23) == c23);
    let c24 = c23.update(27, 11int);
    assert(count_moves(x, c0, 24) == c24);
    let c25 = c24.update(30, -8int);
    assert(count_moves(x, c0, 25) == c25);
    let c26 = c25.update(34, 11int);
    assert(count_moves(x, c0, 26) == c26);
    let c27 = c26.update(31, 16int);
    assert(count_moves(x, c0, 27) == c27);
    let c28 = c27.update(32, -24int);
    assert(count_moves(x, c0, 28) == c28);
    let c29 = c28.update(35, -25int);
    assert(count_moves(x, c0, 29) == c29);
    let c30 = c29.update(36, 45int);
    assert(count_moves(x, c0, 30) == c30);
    let g0 = c30.update(0, -32int).update(1, 22int).update(2, 147int).update(3, 22int);
    assert(count_fixup(x, c30) == g0);
    assert(count_moves(x, g0, 0) == g0);
    let g1 = g0.update(5, 10int);
    assert(count_moves(x, g0, 1) == g1);
    let g2 = g1.update(6, -148int);
    assert(count_moves(x, g0, 2) == g2);
    let g3 = g2.update(7, -44int);
    assert(count_moves(x, g0, 3) == g3);
    let g4 = g3.update(8, -126int);
    assert(count_moves(x, g0, 4) == g4);
    let g5 = g4.update(10, 22int);
    assert(count_moves(x, g0, 5) == g5);
    let g6 = g5.update(16, -22int);
    assert(count_moves(x, g0, 6) == g6);
    let g7 = g6.update(22, 22int);
    assert(count_moves(x, g0, 7) == g7);
    let g8 = g7.update(11, 126int);
    assert(count_moves(x, g0, 8) == g8);
    let g9 = g8.update(12, -114int);
    assert(count_moves(x, g0, 9) == g9);
    let g10 = g9.update(13, 262int);
    assert(count_moves(x, g0, 10) == g10);
    let g11 = g10.update(14, -114int);
    assert(count_moves(x, g0, 11) == g11);
    let g12 = g11.update(17, -136int);
    assert(count_moves(x, g0, 12) == g12);
    let g13 = g12.update(23, 114int);
    assert(count_moves(x, g0, 13) == g13);
    let g14 = g13.update(28, -114int);
    assert(count_moves(x, g0, 14) == g14);
    let g15 = g14.update(18, 240int);
    assert(count_moves(x, g0, 15) == g15);
    let g16 = g15.update(19, -322int);
    assert(count_moves(x, g0, 16) == g16);
    let g17 = g16.update(20, 458int);
    assert(count_moves(x, g0, 17) == g17);
    let g18 = g17.update(21, -480int);
    assert(count_moves(x, g0, 18) == g18);
    let g19 = g18.update(24, -344int);
    assert(count_moves(x, g0, 19) == g19);
    let g20 = g19.update(29, 480int);
    assert(count_moves(x, g0, 20) == g20);
    let g21 = g20.update(33, -502int);
    assert(count_moves(x, g0, 21) == g21);
    let g22 = g21.update(25, 550int);
    assert(count_moves(x, g0, 22) == g22);
    let g23 = g22.update(26, -1074int);
    assert(count_moves(x, g0, 23) == g23);
    let g24 = g23.update(27, 1270int);
    assert(count_moves(x, g0, 24) == g24);
    let g25 = g24.update(30, -904int);
    assert(count_moves(x, g0, 25) == g25);
    let g26 = g25.update(34, 1270int);
    assert(count_moves(x, g0, 26) == g26);
    let g27 = g26.update(31, 1854int);
    assert(count_moves(x, g0, 27) == g27);
    let g28 = g27.update(32, -2736int);
    assert(count_moves(x, g0, 28) == g28);
    let g29 = g28.update(35, -2906int);
    assert(count_moves(x, g0, 29) == g29);
    let g30 = g29.update(36, 5216int);
    assert(count_moves(x, g0, 30) == g30);
    assert(residual_counts(x) == g30);
    lemma_residual_counts(x);
    assert(with_pokes(x, g30)[0] == 0int);
    assert(with_pokes(x, g30)[1] == 0int);
    assert(with_pokes(x, g30)[2] == 0int);
    assert(with_pokes(x, g30)[3] == 0int);
    assert(with_pokes(x, g30)[4] == 0int);
    assert(with_pokes(x, g30)[5] == 0int);
    assert(with_pokes(x, g30)[6] == 0int);
    assert(with_pokes(x, g30)[7] == 0int);
    assert(with_pokes(x, g30)[8] == 0int);
    assert(with_pokes(x, g30)[9] == 0int);
    assert(with_pokes(x, g30)[10] == 0int);
    assert(with_pokes(x, g30)[11] == 0int);
    assert(with_pokes(x, g30)[12] == 0int);
    assert(with_pokes(x, g30)[13] == 0int);
    assert(with_pokes(x, g30)[14] == 0int);
    assert(with_pokes(x, g30)[15] == 0int);
    assert(with_pokes(x, g30)[16] == 0int);
    assert(with_pokes(x, g30)[17] == 0int);
    assert(with_pokes(x, g30)[18] == 0int);
    assert(with_pokes(x, g30)[19] == 0int);
    assert(with_pokes(x, g30)[20] == 0int);
    assert(with_pokes(x, g30)[21] == 1134int);
    assert(with_pokes(x, g30)[22] == 0int);
    assert(with_pokes(x, g30)[23] == 0int);
    assert(with_pokes(x, g30)[24] == 0int);
    assert(with_pokes(x, g30)[25] == 0int);
    assert(with_pokes(x, g30)[26] == 0int);
    assert(with_pokes(x, g30)[27] == -2562int);
    assert(with_pokes(x, g30)[28] == 0int);
    assert(with_pokes(x, g30)[29] == 0int);
    assert(with_pokes(x, g30)[30] == 0int);
    assert(with_pokes(x, g30)[31] == 0int);
    assert(with_pokes(x, g30)[32] == 4530int);
    assert(with_pokes(x, g30)[33] == 1134int);
    assert(with_pokes(x, g30)[34] == -2562int);
    assert(with_pokes(x, g30)[35] == 4530int);
    assert(with_pokes(x, g30)[36] == 1428int);
}


/// The flower of cell 3 leaves a multiple of 6 in every cell: the integer
/// procedure followed count by count.
#[verifier::rlimit(100)]
proof fn lemma_basis_residual_3()
    ensures
        forall|k: int| 0 <= k < 37 ==> #[trigger] residual(flower_board(3))[k] % 6 == 0,
{
    let x = flower_board(3);
    let c0 = Seq::new(37, |k: int| 0int);
    assert(count_moves(x, c0, 0) == c0);
    let c1 = c0.update(5, 0int);
    assert(count_moves(x, c0, 1) == c1);
    let c2 = c1.update(6, 0int);
    assert(count_moves(x, c0, 2) == c2);
    let c3 = c2.update(7, -1int);
    assert(count_moves(x, c0, 3) == c3);
    let c4 = c3.update(8, 0int);
    assert(count_moves(x, c0, 4) == c4);
    let c5 = c4.update(10, 0int);
    assert(count_moves(x, c0, 5) == c5);
    let c6 = c5.update(16, 0int);
    assert(count_moves(x, c0, 6) == c6);
    let c7 = c6.update(22, 0int);
    assert(count_moves(x, c0, 7) == c7);
    let c8 = c7.update(11, 0int);
    assert(count_moves(x, c0, 8) == c8);
    let c9 = c8.update(12, 1int);
    assert(count_moves(x, c0, 9) == c9);
    let c10 = c9.update(13, -1int);
    assert(count_moves(x, c0, 10) == c10);
    let c11 = c10.update(14, 1int);
    assert(count_moves(x, c0, 11) == c11);
    let c12 = c11.update(17, 0int);
    assert(count_moves(x, c0, 12) == c12);
    let c13 = c12.update(23, 0int);
    assert(count_moves(x, c0, 13) == c13);
    let c14 = c13.update(28, 0int);
    assert(count_moves(x, c0, 14) == c14);
    let c15 = c14.update(18, -1int);
    assert(count_moves(x, c0, 15) == c15);
    let c16 = c15.update(19, 2int);
    assert(count_moves(x, c0, 16) == c16);
    let c17 = c16.update(20, -2int);
    assert(count_moves(x, c0, 17) == c17);
    let c18 = c17.update(21, 2int);
    assert(count_moves(x, c0, 18) == c18);
    let c19 = c18.update(24, 1int);
    assert(count_moves(x, c0, 19) == c19);
    let c20 = c19.update(29, -1int);
    assert(count_moves(x, c0, 20) == c20);
    let c21 = c20.update(33, 1int);
    assert(count_moves(x, c0, 21) == c21);
    let c22 = c21.update(25, -3int);
    assert(count_moves(x, c0, 22) == c22);
    let c23 = c22.update(26, 4int);
    assert(count_moves(x, c0, 23) == c23);
    let c24 = c23.update(27, -6int);
    assert(count_moves(x, c0, 24) == c24);
    let c25 = c24.update(30, 4int);
    assert(count_moves(x, c0, 25) == c25);
    let c26 = c25.update(34, -5int);
    assert(count_moves(x, c0, 26) == c26);
    let c27 = c26.update(31, -7int);
    assert(count_moves(x, c0, 27) == c27);
    let c28 = c27.update(32, 12int);
    assert(count_moves(x, c0, 28) == c28);
    let c29 = c28.update(35, 11int);
    assert(count_moves(x, c0, 29) == c29);
    let c30 = c29.update(36, -21int);
    assert(count_moves(x, c0, 30) == c30);
    let g0 = c30.update(0, 15int).update(1, -10int).update(2, -69int).update(3, -10int);
    assert(count_fixup(x, c30) == g0);
    assert(count_moves(x, g0, 0) == g0);
    let g1 = g0.update(5, -5int);
    assert(count_moves(x, g0, 1) == g1);
    let g2 = g1.update(6, 69int);
    assert(count_moves(x, g0, 2) == g2);
    let g3 = g2.update(7, 19int);
    assert(count_moves(x, g0, 3) == g3);
    let g4 = g3.update(8, 59int);
    assert(count_moves(x, g0, 4) == g4);
    let g5 = g4.update(10, -10int);
    assert(count_moves(x, g0, 5) == g5);
    let g6 = g5.update(16, 10int);
    assert(count_moves(x, g0, 6) == g6);
    let g7 = g6.update(22, -10int);
    assert(count_moves(x, g0, 7) == g7);
    let g8 = g7.update(11, -59int);
    assert(count_moves(x, g0, 8) == g8);
    let g9 = g8.update(12, 55int);
    assert(count_moves(x, g0, 9) == g9);
    let g10 = g9.update(13, -124int);
    assert(count_moves(x, g0, 10) == g10);
    let g11 = g10.update(14, 55int);
    assert(count_moves(x, g0, 11) == g11);
    let g12 = g11.update(17, 64int);
    assert(count_moves(x, g0, 12) == g12);
    let g13 = g12.update(23, -54int);
    assert(count_moves(x, g0, 13) == g13);
    let g14 = g13.update(28, 54int);
    assert(count_moves(x, g0, 14) == g14);
    let g15 = g14.update(18, -114int);
    assert(count_moves(x, g0, 15) == g15);
    let g16 = g15.update(19, 154int);
    assert(count_moves(x, g0, 16) == g16);
    let g17 = g16.update(20, -218int);
    assert(count_moves(x, g0, 17) == g17);
    let g18 = g17.update(21, 228int);
    assert(count_moves(x, g0, 18) == g18);
    let g19 = g18.update(24, 163int);
    assert(count_moves(x, g0, 19) == g19);
    let g20 = g19.update(29, -227int);
    assert(count_moves(x, g0, 20) == g20);
    let g21 = g20.update(33, 237int);
    assert(count_moves(x, g0, 21) == g21);
    let g22 = g21.update(25, -263int);
    assert(count_moves(x, g0, 22) == g22);
    let g23 = g22.update(26, 510int);
    assert(count_moves(x, g0, 23) == g23);
    let g24 = g23.update(27, -605int);
    assert(count_moves(x, g0, 24) == g24);
    let g25 = g24.update(30, 431int);
    assert(count_moves(x, g0, 25) == g25);
    let g26 = g25.update(34, -604int);
    assert(count_moves(x, g0, 26) == g26);
    let g27 = g26.update(31, -881int);
    assert(count_moves(x, g0, 27) == g27);
    let g28 = g27.update(32, 1303int);
    assert(count_moves(x, g0, 28) == g28);
    let g29 = g28.update(35, 1381int);
    assert(count_moves(x, g0, 29) == g29);
    let g30 = g29.update(36, -2481int);
    assert(count_moves(x, g0, 30) == g30);
    assert(residual_counts(x) == g30);
    lemma_residual_counts(x);
    assert(with_pokes(x, g30)[0] == 0int);
    assert(with_pokes(x, g30)[1] == 0int);
    assert(with_pokes(x, g30)[2] == 0int);
    assert(with_pokes(x, g30)[3] == 0int);
    assert(with_pokes(x, g30)[4] == 0int);
    assert(with_pokes(x, g30)[5] == 0int);
    assert(with_pokes(x, g30)[6] == 0int);
    assert(with_pokes(x, g30)[7] == 0int);
    assert(with_pokes(x, g30)[8] == 0int);
    assert(with_pokes(x, g30)[9] == 0int);
    assert(with_pokes(x, g30)[10] == 0int);
    assert(with_pokes(x, g30)[11] == 0int);
    assert(with_pokes(x, g30)[12] == 0int);
    assert(with_pokes(x, g30)[13] == 0int);
    assert(with_pokes(x, g30)[14] == 0int);
    assert(with_pokes(x, g30)[15] == 0int);
    assert(with_pokes(x, g30)[16] == 0int);
    assert(with_pokes(x, g30)[17] == 0int);
    assert(with_pokes(x, g30)[18] == 0int);
    assert(with_pokes(x, g30)[19] == 0int);
    assert(with_pokes(x, g30)[20] == 0int);
    assert(with_pokes(x, g30)[21] == -540int);
    assert(with_pokes(x, g30)[22] == 0int);
    assert(with_pokes(x, g30)[23] == 0int);
    assert(with_pokes(x, g30)[24] == 0int);
    assert(with_pokes(x, g30)[25] == 0int);
    assert(with_pokes(x, g30)[26] == 0int);
    assert(with_pokes(x, g30)[27] == 1218int);
    assert(with_pokes(x, g30)[28] == 0int);
    assert(with_pokes(x, g30)[29] == 0int);
    assert(with_pokes(x, g30)[30] == 0int);
    assert(with_pokes(x, g30)[31] == 0int);
    assert(with_pokes(x, g30)[32] == -2154int);
    assert(with_pokes(x, g30)[33] == -540int);
    assert(with_pokes(x, g30)[34] == 1218int);
    assert(with_pokes(x, g30)[35] == -2154int);
    assert(with_pokes(x, g30)[36] == -678int);
}


/// The flower of cell 4 leaves a multiple of 6 in every cell: the integer
/// procedure followed count by count.
#[verifier::rlimit(100)]
proof fn lemma_basis_residual_4()
    ensures
        forall|k: int| 0 <= k < 37 ==> #[trigger] residual(flower_board(4))[k] % 6 == 0,
{
    let x = flower_board(4);
    let c0 = Seq::new(37, |k: int| 0int);
    assert(count_moves(x, c0, 0) == c0);
    let c1 = c0.update(5, -1int);
    assert(count_moves(x, c0, 1) == c1);
    let c2 = c1.update(6, 1int);
    assert(count_moves(x, c0, 2) == c2);
    let c3 = c2.update(7, -1int);
    assert(count_moves(x, c0, 3) == c3);
    let c4 = c3.update(8, 1int);
    assert(count_moves(x, c0, 4) == c4);
    let c5 = c4.update(10, 0int);
    assert(count_moves(x, c0, 5) == c5);
    let c6 = c5.update(16, -1int);
    assert(count_moves(x, c0, 6) == c6);
    let c7 = c6.update(22, 1int);
    assert(count_moves(x, c0, 7) == c7);
    let c8 = c7.update(11, -1int);
    assert(count_moves(x, c0, 8) == c8);
    let c9 = c8.update(12, 2int);
    assert(count_moves(x, c0, 9) == c9);
    let c10 = c9.update(13, -3int);
    assert(count_moves(x, c0, 10) == c10);
    let c11 = c10.update(14, 3int);
    assert(count_moves(x, c0, 11) == c11);
    let c12 = c11.update(17, 2int);
    assert(count_moves(x, c0, 12) == c12);
    let c13 = c12.update(23, -2int);
    assert(count_moves(x, c0, 13) == c13);
    let c14 = c13.update(28, 2int);
    assert(count_moves(x, c0, 14) == c14);
    let c15 = c14.update(18, -3int);
    assert(count_moves(x, c0, 15) == c15);
    let c16 = c15.update(19, 5int);
    assert(count_moves(x, c0, 16) == c16);
    let c17 = c16.update(20, -7int);
    assert(count_moves(x, c0, 17) == c17);
    let c18 = c17.update(21, 6int);
    assert(count_moves(x, c0, 18) == c18);
    let c19 = c18.update(24, 5int);
    assert(count_moves(x, c0, 19) == c19);
    let c20 = c19.update(29, -7int);
    assert(count_moves(x, c0, 20) == c20);
    let c21 = c20.update(33, 6int);
    assert(count_moves(x, c0, 21) == c21);
    let c22 = c21.update(25, -10int);
    assert(count_moves(x, c0, 22) == c22);
    let c23 = c22.update(26, 16int);
    assert(count_moves(x, c0, 23) == c23);
    let c24 = c23.update(27, -20int);
    assert(count_moves(x, c0, 24) == c24);
    let c25 = c24.update(30, 15int);
    assert(count_moves(x, c0, 25) == c25);
    let c26 = c25.update(34, -19int);
    assert(count_moves(x, c0, 26) == c26);
    let c27 = c26.update(31, -28int);
    assert(count_moves(x, c0, 27) == c27);
    let c28 = c27.update(32, 44int);
    assert(count_moves(x, c0, 28) == c28);
    let c29 = c28.update(35, 44int);
    assert(count_moves(x, c0, 29) == c29);
    let c30 = c29.update(36, -81int);
    assert(count_moves(x, c0, 30) == c30);
    let g0 = c30.update(0, 57int).update(1, -39int).update(2, -261int).update(3, -39int);
    assert(count_fixup(x, c30) == g0);
    assert(count_moves(x, g0, 0) == g0);
    let g1 = g0.update(5, -19int);
    assert(count_moves(x, g0, 1) == g1);
    let g2 = g1.update(6, 262int);
    assert(count_moves(x, g0, 2) == g2);
    let g3 = g2.update(7, 77int);
    assert(count_moves(x, g0, 3) == g3);
    let g4 = g3.update(8, 223int);
    assert(count_moves(x, g0, 4) == g4);
    let g5 = g4.update(10, -39int);
    assert(count_moves(x, g0, 5) == g5);
    let g6 = g5.update(16, 38int);
    assert(count_moves(x, g0, 6) == g6);
    let g7 = g6.update(22, -38int);
    assert(count_moves(x, g0, 7) == g7);
    let g8 = g7.update(11, -223int);
    assert(count_moves(x, g0, 8) == g8);
    let g9 = g8.update(12, 203int);
    assert(count_moves(x, g0, 9) == g9);
    let g10 = g9.update(13, -465int);
    assert(count_moves(x, g0, 10) == g10);
    let g11 = g10.update(14, 204int);
    assert(count_moves(x, g0, 11) == g11);
    let g12 = g11.update(17, 242int);
    assert(count_moves(x, g0, 12) == g12);
    let g13 = g12.update(23, -203int);
    assert(count_moves(x, g0, 13) == g13);
    let g14 = g13.update(28, 203int);
    assert(count_moves(x, g0, 14) == g14);
    let g15 = g14.update(18, -426int);
    assert(count_moves(x, g0, 15) == g15);
    let g16 = g15.update(19, 572int);
    assert(count_moves(x, g0, 16) == g16);
    let g17 = g16.update(20, -814int);
    assert(count_moves(x, g0, 17) == g17);
    let g18 = g17.update(21, 852int);
    assert(count_moves(x, g0, 18) == g18);
    let g19 = g18.update(24, 611int);
    assert(count_moves(x, g0, 19) == g19);
    let g20 = g19.update(29, -853int);
    assert(count_moves(x, g0, 20) == g20);
    let g21 = g20.update(33, 891int);
    assert(count_moves(x, g0, 21) == g21);
    let g22 = g21.update(25, -979int);
    assert(count_moves(x, g0, 22) == g22);
    let g23 = g22.update(26, 1909int);
    assert(count_moves(x, g0, 23) == g23);
    let g24 = g23.update(27, -2258int);
    assert(count_moves(x, g0, 24) == g24);
    let g25 = g24.update(30, 1608int);
    assert(count_moves(x, g0, 25) == g25);
    let g26 = g25.update(34, -2257int);
    assert(count_moves(x, g0, 26) == g26);
    let g27 = g26.update(31, -3295int);
    assert(count_moves(x, g0, 27) == g27);
    let g28 = g27.update(32, 4865int);
    assert(count_moves(x, g0, 28) == g28);
    let g29 = g28.update(35, 5165int);
    assert(count_moves(x, g0, 29) == g29);
    let g30 = g29.update(36, -9273int);
    assert(count_moves(x, g0, 30) == g30);
    assert(residual_counts(x) == g30);
    lemma_residual_counts(x);
    assert(with_pokes(x, g30)[0] == 0int);
    assert(with_pokes(x, g30)[1] == 0int);
    assert(with_pokes(x, g30)[2] == 0int);
    assert(with_pokes(x, g30)[3] == 0int);
    assert(with_pokes(x, g30)[4] == 0int);
    assert(with_pokes(x, g30)[5] == 0int);
    assert(with_pokes(x, g30)[6] == 0int);
    assert(with_pokes(x, g30)[7] == 0int);
    assert(with_pokes(x, g30)[8] == 0int);
    assert(with_pokes(x, g30)[9] == 0int);
    assert(with_pokes(x, g30)[10] == 0int);
    assert(with_pokes(x, g30)[11] == 0int);
    assert(with_pokes(x, g30)[12] == 0int);
    assert(with_pokes(x, g30)[13] == 0int);
    assert(with_pokes(x, g30)[14] == 0int);
    assert(with_pokes(x, g30)[15] == 0int);
    assert(with_pokes(x, g30)[16] == 0int);
    assert(with_pokes(x, g30)[17] == 0int);
    assert(with_pokes(x, g30)[18] == 0int);
    assert(with_pokes(x, g30)[19] == 0int);
    assert(with_pokes(x, g30)[20] == 0int);
    assert(with_pokes(x, g30)[21] == -2016int);
    assert(with_pokes(x, g30)[22] == 0int);
    assert(with_pokes(x, g30)[23] == 0int);
    assert(with_pokes(x, g30)[24] == 0int);
    assert(with_pokes(x, g30)[25] == 0int);
    assert(with_pokes(x, g30)[26] == 0int);
    assert(with_pokes(x, g30)[27] == 4554int);
    assert(with_pokes(x, g30)[28] == 0int);
    assert(with_pokes(x, g30)[29] == 0int);
    assert(with_pokes(x, g30)[30] == 0int);
    assert(with_pokes(x, g30)[31] == 0int);
    assert(with_pokes(x, g30)[32] == -8052int);
    assert(with_pokes(x, g30)[33] == -2016int);
    assert(with_pokes(x, g30)[34] == 4554int);
    assert(with_pokes(x, g30)[35] == -8052int);
    assert(with_pokes(x, g30)[36] == -2538int);
}


/// The flower of cell 9 leaves a multiple of 6 in every cell: the integer
/// procedure followed count by count.
#[verifier::rlimit(100)]
proof fn lemma_basis_residual_9()
    ensures
        forall|k: int| 0 <= k < 37 ==> #[trigger] residual(flower_board(9))[k] % 6 == 0,
{
    let x = flower_board(9);
    let c0 = Seq::new(37, |k: int| 0int);
    assert(count_moves(x, c0, 0) == c0);
    let c1 = c0.update(5, 0int);
    assert(count_moves(x, c0, 1) == c1);
    let c2 = c1.update(6, 0int);
    assert(count_moves(x, c0, 2) == c2);
    let c3 = c2.update(7, 0int);
    assert(count_moves(x, c0, 3) == c3);
    let c4 = c3.update(8, 0int);
    assert(count_moves(x, c0, 4) == c4);
    let c5 = c4.update(10, -1int);
    assert(count_moves(x, c0, 5) == c5);
    let c6 = c5.update(16, 0int);
    assert(count_moves(x, c0, 6) == c6);
    let c7 = c6.update(22, -1int);
    assert(count_moves(x, c0, 7) == c7);
    let c8 = c7.update(11, 1int);
    assert(count_moves(x, c0, 8) == c8);
    let c9 = c8.update(12, -1int);
    assert(count_moves(x, c0, 9) == c9);
    let c10 = c9.update(13, 1int);
    assert(count_moves(x, c0, 10) == c10);
    let c11 = c10.update(14, -1int);
    assert(count_moves(x, c0, 11) == c11);
    let c12 = c11.update(17, -1int);
    assert(count_moves(x, c0, 12) == c12);
    let c13 = c12.update(23, 2int);
    assert(count_moves(x, c0, 13) == c13);
    let c14 = c13.update(28, -1int);
    assert(count_moves(x, c0, 14) == c14);
    let c15 = c14.update(18, 2int);
    assert(count_moves(x, c0, 15) == c15);
    let c16 = c15.update(19, -3int);
    assert(count_moves(x, c0, 16) == c16);
    let c17 = c16.update(20, 4int);
    assert(count_moves(x, c0, 17) == c17);
    let c18 = c17.update(21, -4int);
    assert(count_moves(x, c0, 18) == c18);
    let c19 = c18.update(24, -3int);
    assert(count_moves(x, c0, 19) == c19);
    let c20 = c19.update(29, 4int);
    assert(count_moves(x, c0, 20) == c20);
    let c21 = c20.update(33, -4int);
    assert(count_moves(x, c0, 21) == c21);
    let c22 = c21.update(25, 5int);
    assert(count_moves(x, c0, 22) == c22);
    let c23 = c22.update(26, -8int);
    assert(count_moves(x, c0, 23) == c23);
    let c24 = c23.update(27, 11int);
    assert(count_moves(x, c0, 24) == c24);
    let c25 = c24.update(30, -9int);
    assert(count_moves(x, c0, 25) == c25);
    let c26 = c25.update(34, 11int);
    assert(count_moves(x, c0, 26) == c26);
    let c27 = c26.update(31, 16int);
    assert(count_moves(x, c0, 27) == c27);
    let c28 = c27.update(32, -25int);
    assert(count_moves(x, c0, 28) == c28);
    let c29 = c28.update(35, -24int);
    assert(count_moves(x, c0, 29) == c29);
    let c30 = c29.update(36, 45int);
    assert(count_moves(x, c0, 30) == c30);
    let g0 = c30.update(0, -32int).update(1, 22int).update(2, 147int).update(3, 22int);
    assert(count_fixup(x, c30) == g0);
    assert(count_moves(x, g0, 0) == g0);
    let g1 = g0.update(5, 10int);
    assert(count_moves(x, g0, 1) == g1);
    let g2 = g1.update(6, -147int);
    assert(count_moves(x, g0, 2) == g2);
    let g3 = g2.update(7, -44int);
    assert(count_moves(x, g0, 3) == g3);
    let g4 = g3.update(8, -125int);
    assert(count_moves(x, g0, 4) == g4);
    let g5 = g4.update(10, 21int);
    assert(count_moves(x, g0, 5) == g5);
    let g6 = g5.update(16, -22int);
    assert(count_moves(x, g0, 6) == g6);
    let g7 = g6.update(22, 21int);
    assert(count_moves(x, g0, 7) == g7);
    let g8 = g7.update(11, 126int);
    assert(count_moves(x, g0, 8) == g8);
    let g9 = g8.update(12, -114int);
    assert(count_moves(x, g0, 9) == g9);
    let g10 = g9.update(13, 261int);
    assert(count_moves(x, g0, 10) == g10);
    let g11 = g10.update(14, -114int);
    assert(count_moves(x, g0, 11) == g11);
    let g12 = g11.update(17, -136int);
    assert(count_moves(x, g0, 12) == g12);
    let g13 = g12.update(23, 115int);
    assert(count_moves(x, g0, 13) == g13);
    let g14 = g13.update(28, -114int);
    assert(count_moves(x, g0, 14) == g14);
    let g15 = g14.update(18, 240int);
    assert(count_moves(x, g0, 15) == g15);
    let g16 = g15.update(19, -322int);
    assert(count_moves(x, g0, 16) == g16);
    let g17 = g16.update(20, 458int);
    assert(count_moves(x, g0, 17) == g17);
    let g18 = g17.update(21, -480int);
    assert(count_moves(x, g0, 18) == g18);
    let g19 = g18.update(24, -344int);
    assert(count_moves(x, g0, 19) == g19);
    let g20 = g19.update(29, 480int);
    assert(count_moves(x, g0, 20) == g20);
    let g21 = g20.update(33, -502int);
    assert(count_moves(x, g0, 21) == g21);
    let g22 = g21.update(25, 550int);
    assert(count_moves(x, g0, 22) == g22);
    let g23 = g22.update(26, -1073int);
    assert(count_moves(x, g0, 23) == g23);
    let g24 = g23.update(27, 1270int);
    assert(count_moves(x, g0, 24) == g24);
    let g25 = g24.update(30, -905int);
    assert(count_moves(x, g0, 25) == g25);
    let g26 = g25.update(34, 1270int);
    assert(count_moves(x, g0, 26) == g26);
    let g27 = g26.update(31, 1854int);
    assert(count_moves(x, g0, 27) == g27);
    let g28 = g27.update(32, -2737int);
    assert(count_moves(x, g0, 28) == g28);
    let g29 = g28.update(35, -2905int);
    assert(count_moves(x, g0, 29) == g29);
    let g30 = g29.update(36, 5216int);
    assert(count_moves(x, g0, 30) == g30);
    assert(residual_counts(x) == g30);
    lemma_residual_counts(x);
    assert(with_pokes(x, g30)[0] == 0int);
    assert(with_pokes(x, g30)[1] == 0int);
    assert(with_pokes(x, g30)[2] == 0int);
    assert(with_pokes(x, g30)[3] == 0int);
    assert(with_pokes(x, g30)[4] == 0int);
    assert(with_pokes(x, g30)[5] == 0int);
    assert(with_pokes(x, g30)[6] == 0int);
    assert(with_pokes(x, g30)[7] == 0int);
    assert(with_pokes(x, g30)[8] == 0int);
    assert(with_pokes(x, g30)[9] == 0int);
    assert(with_pokes(x, g30)[10] == 0int);
    assert(with_pokes(x, g30)[11] == 0int);
    assert(with_pokes(x, g30)[12] == 0int);
    assert(with_pokes(x, g30)[13] == 0int);
    assert(with_pokes(x, g30)[14] == 0int);
    assert(with_pokes(x, g30)[15] == 0int);
    assert(with_pokes(x, g30)[16] == 0int);
    assert(with_pokes(x, g30)[17] == 0int);
    assert(with_pokes(x, g30)[18] == 0int);
    assert(with_pokes(x, g30)[19] == 0int);
    assert(with_pokes(x, g30)[20] == 0int);
    assert(with_pokes(x, g30)[21] == 1134int);
    assert(with_pokes(x, g30)[22] == 0int);
    assert(with_pokes(x, g30)[23] == 0int);
    assert(with_pokes(x, g30)[24] == 0int);
    assert(with_pokes(x, g30)[25] == 0int);
    assert(with_pokes(x, g30)[26] == 0int);
    assert(with_pokes(x, g30)[27] == -2562int);
    assert(with_pokes(x, g30)[28] == 0int);
    assert(with_pokes(x, g30)[29] == 0int);
    assert(with_pokes(x, g30)[30] == 0int);
    assert(with_pokes(x, g30)[31] == 0int);
    assert(with_pokes(x, g30)[32] == 4530int);
    assert(with_pokes(x, g30)[33] == 1134int);
    assert(with_pokes(x, g30)[34] == -2562int);
    assert(with_pokes(x, g30)[35] == 4530int);
    assert(with_pokes(x, g30)[36] == 1428int);
}


/// The flower of cell 15 leaves a multiple of 6 in every cell: the integer
/// procedure followed count by count.
#[verifier::rlimit(100)]
proof fn lemma_basis_residual_15()
    ensures
        forall|k: int| 0 <= k < 37 ==> #[trigger] residual(flower_board(15))[k] % 6 == 0,
{
    let x = flower_board(15);
    let c0 = Seq::new(37, |k: int| 0int);
    assert(count_moves(x, c0, 0) == c0);
    let c1 = c0.update(5, 0int);
    assert(count_moves(x, c0, 1) == c1);
    let c2 = c1.update(6, 0int);
    assert(count_moves(x, c0, 2) == c2);
    let c3 = c2.update(7, 0int);
    assert(count_moves(x, c0, 3) == c3);
    let c4 = c3.update(8, 0int);
    assert(count_moves(x, c0, 4) == c4);
    let c5 = c4.update(10, 0int);
    assert(count_moves(x, c0, 5) == c5);
    let c6 = c5.update(16, -1int);
    assert(count_moves(x, c0, 6) == c6);
    let c7 = c6.update(22, 0int);
    assert(count_moves(x, c0, 7) == c7);
    let c8 = c7.update(11, 0int);
    assert(count_moves(x, c0, 8) == c8);
    let c9 = c8.update(12, 0int);
    assert(count_moves(x, c0, 9) == c9);
    let c10 = c9.update(13, 0int);
    assert(count_moves(x, c0, 10) == c10);
    let c11 = c10.update(14, 0int);
    assert(count_moves(x, c0, 11) == c11);
    let c12 = c11.update(17, 1int);
    assert(count_moves(x, c0, 12) == c12);
    let c13 = c12.update(23, -1int);
    assert(count_moves(x, c0, 13) == c13);
    let c14 = c13.update(28, 1int);
    assert(count_moves(x, c0, 14) == c14);
    let c15 = c14.update(18, -1int);
    assert(count_moves(x, c0, 15) == c15);
    let c16 = c15.update(19, 1int);
    assert(count_moves(x, c0, 16) == c16);
    let c17 = c16.update(20, -1int);
    assert(count_moves(x, c0, 17) == c17);
    let c18 = c17.update(21, 1int);
    assert(count_moves(x, c0, 18) == c18);
    let c19 = c18.update(24, 2int);
    assert(count_moves(x, c0, 19) == c19);
    let c20 = c19.update(29, -2int);
    assert(count_moves(x, c0, 20) == c20);
    let c21 = c20.update(33, 2int);
    assert(count_moves(x, c0, 21) == c21);
    let c22 = c21.update(25, -3int);
    assert(count_moves(x, c0, 22) == c22);
    let c23 = c22.update(26, 4int);
    assert(count_moves(x, c0, 23) == c23);
    let c24 = c23.update(27, -5int);
    assert(count_moves(x, c0, 24) == c24);
    let c25 = c24.update(30, 4int);
    assert(count_moves(x, c0, 25) == c25);
    let c26 = c25.update(34, -6int);
    assert(count_moves(x, c0, 26) == c26);
    let c27 = c26.update(31, -7int);
    assert(count_moves(x, c0, 27) == c27);
    let c28 = c27.update(32, 11int);
    assert(count_moves(x, c0, 28) == c28);
    let c29 = c28.update(35, 12int);
    assert(count_moves(x, c0, 29) == c29);
    let c30 = c29.update(36, -21int);
    assert(count_moves(x, c0, 30) == c30);
    let g0 = c30.update(0, 15int).update(1, -10int).update(2, -69int).update(3, -10int);
    assert(count_fixup(x, c30) == g0);
    assert(count_moves(x, g0, 0) == g0);
    let g1 = g0.update(5, -5int);
    assert(count_moves(x, g0, 1) == g1);
    let g2 = g1.update(6, 69int);
    assert(count_moves(x, g0, 2) == g2);
    let g3 = g2.update(7, 20int);
    assert(count_moves(x, g0, 3) == g3);
    let g4 = g3.update(8, 59int);
    assert(count_moves(x, g0, 4) == g4);
    let g5 = g4.update(10, -10int);
    assert(count_moves(x, g0, 5) == g5);
    let g6 = g5.update(16, 9int);
    assert(count_moves(x, g0, 6) == g6);
    let g7 = g6.update(22, -10int);
    assert(count_moves(x, g0, 7) == g7);
    let g8 = g7.update(11, -59int);
    assert(count_moves(x, g0, 8) == g8);
    let g9 = g8.update(12, 54int);
    assert(count_moves(x, g0, 9) == g9);
    let g10 = g9.update(13, -123int);
    assert(count_moves(x, g0, 10) == g10);
    let g11 = g10.update(14, 54int);
    assert(count_moves(x, g0, 11) == g11);
    let g12 = g11.update(17, 65int);
    assert(count_moves(x, g0, 12) == g12);
    let g13 = g12.update(23, -55int);
    assert(count_moves(x, g0, 13) == g13);
    let g14 = g13.update(28, 55int);
    assert(count_moves(x, g0, 14) == g14);
    let g15 = g14.update(18, -114int);
    assert(count_moves(x, g0, 15) == g15);
    let g16 = g15.update(19, 153int);
    assert(count_moves(x, g0, 16) == g16);
    let g17 = g16.update(20, -217int);
    assert(count_moves(x, g0, 17) == g17);
    let g18 = g17.update(21, 227int);
    assert(count_moves(x, g0, 18) == g18);
    let g19 = g18.update(24, 164int);
    assert(count_moves(x, g0, 19) == g19);
    let g20 = g19.update(29, -228int);
    assert(count_moves(x, g0, 20) == g20);
    let g21 = g20.update(33, 238int);
    assert(count_moves(x, g0, 21) == g21);
    let g22 = g21.update(25, -263int);
    assert(count_moves(x, g0, 22) == g22);
    let g23 = g22.update(26, 510int);
    assert(count_moves(x, g0, 23) == g23);
    let g24 = g23.update(27, -604int);
    assert(count_moves(x, g0, 24) == g24);
    let g25 = g24.update(30, 431int);
    assert(count_moves(x, g0, 25) == g25);
    let g26 = g25.update(34, -605int);
    assert(count_moves(x, g0, 26) == g26);
    let g27 = g26.update(31, -881int);
    assert(count_moves(x, g0, 27) == g27);
    let g28 = g27.update(32, 1302int);
    assert(count_moves(x, g0, 28) == g28);
    let g29 = g28.update(35, 1382int);
    assert(count_moves(x, g0, 29) == g29);
    let g30 = g29.update(36, -2481int);
    assert(count_moves(x, g0, 30) == g30);
    assert(residual_counts(x) == g30);
    lemma_residual_counts(x);
    assert(with_pokes(x, g30)[0] == 0int);
    assert(with_pokes(x, g30)[1] == 0int);
    assert(with_pokes(x, g30)[2] == 0int);
    assert(with_pokes(x, g30)[3] == 0int);
    assert(with_pokes(x, g30)[4] == 0int);
    assert(with_pokes(x, g30)[5] == 0int);
    assert(with_pokes(x, g30)[6] == 0int);
    assert(with_pokes(x, g30)[7] == 0int);
    assert(with_pokes(x, g30)[8] == 0int);
    assert(with_pokes(x, g30)[9] == 0int);
    assert(with_pokes(x, g30)[10] == 0int);
    assert(with_pokes(x, g30)[11] == 0int);
    assert(with_pokes(x, g30)[12] == 0int);
    assert(with_pokes(x, g30)[13] == 0int);
    assert(with_pokes(x, g30)[14] == 0int);
    assert(with_pokes(x, g30)[15] == 0int);
    assert(with_pokes(x, g30)[16] == 0int);
    assert(with_pokes(x, g30)[17] == 0int);
    assert(with_pokes(x, g30)[18] == 0int);
    assert(with_pokes(x, g30)[19] == 0int);
    assert(with_pokes(x, g30)[20] == 0int);
    assert(with_pokes(x, g30)[21] == -540int);
    assert(with_pokes(x, g30)[22] == 0int);
    assert(with_pokes(x, g30)[23] == 0int);
    assert(with_pokes(x, g30)[24] == 0int);
    assert(with_pokes(x, g30)[25] == 0int);
    assert(with_pokes(x, g30)[26] == 0int);
    assert(with_pokes(x, g30)[27] == 1218int);
    assert(with_pokes(x, g30)[28] == 0int);
    assert(with_pokes(x, g30)[29] == 0int);
    assert(with_pokes(x, g30)[30] == 0int);
    assert(with_pokes(x, g30)[31] == 0int);
    assert(with_pokes(x, g30)[32] == -2154int);
    assert(with_pokes(x, g30)[33] == -540int);
    assert(with_pokes(x, g30)[34] == 1218int);
    assert(with_pokes(x, g30)[35] == -2154int);
    assert(with_pokes(x, g30)[36] == -678int);
}


proof fn lemma_mod6_in_range(s: Seq<int>)
    requires
        in_range(s),
    ensures
        mod6(s) == s,
{
    assert(mod6(s) =~= s);
}

/// On a board in range, the layered procedure leaves, mod 6, what the integer procedure
/// leaves.
proof fn lemma_layered_mod(s: Seq<int>)
    requires
        in_range(s),
    ensures
        layered(s).0 == mod6(residual(s)),
{
    let z = Seq::new(37, |k: int| 0int);
    lemma_mod6_in_range(s);
    lemma_after_moves_mod(s, z, 30);
    let st1 = partial_solve((s, z));
    let x1 = int_moves(s, 30);
    lemma_int_moves_len(s, 30);
    assert(st1 == (mod6(x1), st1.1));
    lemma_fixup_mod(x1, st1.1);
    let st2 = fixup(st1);
    let x2 = int_fixup(x1);
    assert(st2 == (mod6(x2), st2.1));
    lemma_after_moves_mod(x2, st2.1, 30);
}

/// The board that the pokes `c` leave on an aligned board, over the integers.
pub open spec fn pokes_board(c: Seq<int>) -> Seq<int> {
    with_pokes(zeros(), c)
}

/// The counts of `c` at the first `n` cells, and none elsewhere.
pub open spec fn prefix(c: Seq<int>, n: int) -> Seq<int> {
    Seq::new(37, |j: int| if j < n { c[j] } else { 0int })
}

proof fn lemma_multiple_of_6(a: int, l: int, b: int)
    requires
        a % 6 == 0,
        b % 6 == 0,
    ensures
        (a + l * b) % 6 == 0,
        (a - b) % 6 == 0,
{
    vstd::arithmetic::div_mod::lemma_fundamental_div_mod(a, 6);
    vstd::arithmetic::div_mod::lemma_fundamental_div_mod(b, 6);
    assert(a + l * b == 6 * (a / 6 + l * (b / 6))) by (nonlinear_arith)
        requires
            a == 6 * (a / 6),
            b == 6 * (b / 6),
    ;
    vstd::arithmetic::div_mod::lemma_mod_multiples_basic(a / 6 + l * (b / 6), 6);
    vstd::arithmetic::div_mod::lemma_mod_multiples_basic(a / 6 - b / 6, 6);
}

proof fn lemma_residual_zeros()
    ensures
        residual(zeros()) == zeros(),
{
    lemma_int_moves_zeros(30);
    assert(int_fixup(zeros()) =~= zeros());
}

/// Whatever pokes make of an aligned board, the integer procedure leaves a multiple of 6
/// in every cell.
proof fn lemma_residual_pokes_board(c: Seq<int>, n: int)
    requires
        c.len() == 37,
        forall|j: int| 0 <= j < 37 ==> 0 <= #[trigger] c[j],
        0 <= n <= 37,
    ensures
        forall|k: int| 0 <= k < 37 ==> #[trigger] residual(pokes_board(prefix(c, n)))[k] % 6 == 0,
    decreases n,
{
    if n == 0 {
        assert(pokes_board(prefix(c, 0)) =~= zeros()) by {
            assert forall|k: int| 0 <= k < 37 implies #[trigger] pokes_board(prefix(c, 0))[k] == 0 by {
                lemma_pos_of_index(k);
            }
        }
        lemma_residual_zeros();
    } else {
        lemma_residual_pokes_board(c, n - 1);
        let before = prefix(c, n - 1);
        let f = flower_board(n - 1);
        assert(prefix(c, n) =~= before.update(n - 1, before[n - 1] + c[n - 1]));
        assert(pokes_board(prefix(c, n)) =~= vadd(pokes_board(before), vscale(c[n - 1], f))) by {
            assert forall|k: int| 0 <= k < 37 implies #[trigger] pokes_board(prefix(c, n))[k] == vadd(
                pokes_board(before),
                vscale(c[n - 1], f),
            )[k] by {
                crate::laws::lemma_flower_sum_update(before, n - 1, c[n - 1], k);
            }
        }
        lemma_residual_add(pokes_board(before), vscale(c[n - 1], f));
        lemma_residual_scale(c[n - 1] as nat, f);
        lemma_residual_flower(n - 1);
        assert forall|k: int| 0 <= k < 37 implies #[trigger] residual(pokes_board(prefix(c, n)))[k] % 6 == 0 by {
            lemma_multiple_of_6(residual(pokes_board(before))[k], c[n - 1], residual(f)[k]);
        }
    }
}

/// Whether some pokes align the board: the boards that pokes can reach from the
/// aligned one.
pub open spec fn solvable(s: Seq<int>) -> bool {
    exists|c: Seq<int>|
        c.len() == 37 && (forall|j: int| 0 <= j < 37 ==> 0 <= #[trigger] c[j]) && all_aligned(
            applied(s, c),
        )
}

/// The poke-count map of the layered procedure aligns every board that some pokes align.
pub proof fn lemma_layered_solves(s: Seq<int>)
    requires
        in_range(s),
        solvable(s),
    ensures
        all_aligned(applied(s, layered_counts(s))),
{
    let c = choose|c: Seq<int>|
        c.len() == 37 && (forall|j: int| 0 <= j < 37 ==> 0 <= #[trigger] c[j]) && all_aligned(
            applied(s, c),
        );
    assert(prefix(c, 37) =~= c);
    lemma_residual_pokes_board(c, 37);
    let pb = pokes_board(c);
    let x0 = vadd(s, pb);
    let w = Seq::new(37, |k: int| x0[k] / 6);
    assert(x0 =~= vscale(6, w)) by {
        assert forall|k: int| 0 <= k < 37 implies #[trigger] x0[k] == vscale(6, w)[k] by {
            assert(applied(s, c)[k] == 0);
            assert(x0[k] % 6 == 0);
            vstd::arithmetic::div_mod::lemma_fundamental_div_mod(x0[k], 6);
        }
    }
    lemma_residual_scale(6, w);
    lemma_residual_add(s, pb);
    crate::laws::lemma_layered_aligns_targets(s);
    lemma_layered_mod(s);
    assert forall|k: int| 0 <= k < 37 implies #[trigger] applied(s, layered_counts(s))[k] == 0 by {
        lemma_residual_len(w);
        vstd::arithmetic::div_mod::lemma_mod_multiples_basic(residual(w)[k], 6);
        assert(residual(x0)[k] == 6 * residual(w)[k]);
        assert(residual(x0)[k] % 6 == 0);
        lemma_multiple_of_6(residual(x0)[k], 0, residual(pb)[k]);
        assert(residual(s)[k] == residual(x0)[k] - residual(pb)[k]);
    }
}

proof fn lemma_rotated_keeps(s: Seq<int>)
    requires
        in_range(s),
        solvable(s),
    ensures
        in_range(rotated(s)),
        solvable(rotated(s)),
{
    assert forall|k: int| 0 <= k < 37 implies 0 <= #[trigger] rotated(s)[k] < 6 by {
        lemma_pos_of_index(k);
        lemma_index_of_pos(pos_y(k), pos_y(k) - pos_x(k) + 3);
    }
    let c = choose|c: Seq<int>|
        c.len() == 37 && (forall|j: int| 0 <= j < 37 ==> 0 <= #[trigger] c[j]) && all_aligned(
            applied(s, c),
        );
    assert forall|j: int| 0 <= j < 37 implies 0 <= #[trigger] rotated(c)[j] by {
        lemma_pos_of_index(j);
        lemma_index_of_pos(pos_y(j), pos_y(j) - pos_x(j) + 3);
    }
    crate::laws::lemma_applied_rotated(s, c);
    crate::laws::lemma_aligned_rotated(applied(s, c));
    assert(rotated(c).len() == 37 && (forall|j: int| 0 <= j < 37 ==> 0 <= #[trigger] rotated(c)[j])
        && all_aligned(applied(rotated(s), rotated(c))));
}

proof fn lemma_flipped_keeps(s: Seq<int>)
    requires
        in_range(s),
        solvable(s),
    ensures
        in_range(flipped(s)),
        solvable(flipped(s)),
{
    assert forall|k: int| 0 <= k < 37 implies 0 <= #[trigger] flipped(s)[k] < 6 by {
        lemma_pos_of_index(k);
        lemma_index_of_pos(pos_y(k), pos_x(k));
    }
    let c = choose|c: Seq<int>|
        c.len() == 37 && (forall|j: int| 0 <= j < 37 ==> 0 <= #[trigger] c[j]) && all_aligned(
            applied(s, c),
        );
    assert forall|j: int| 0 <= j < 37 implies 0 <= #[trigger] flipped(c)[j] by {
        lemma_pos_of_index(j);
        lemma_index_of_pos(pos_y(j), pos_x(j));
    }
    crate::laws::lemma_applied_flipped(s, c);
    crate::laws::lemma_aligned_flipped(applied(s, c));
    assert(flipped(c).len() == 37 && (forall|j: int| 0 <= j < 37 ==> 0 <= #[trigger] flipped(c)[j])
        && all_aligned(applied(flipped(s), flipped(c))));
}

proof fn lemma_rotated_n_keeps(s: Seq<int>, n: nat)
    requires
        in_range(s),
        solvable(s),
    ensures
        in_range(rotated_n(s, n)),
        solvable(rotated_n(s, n)),
    decreases n,
{
    if n > 0 {
        lemma_rotated_n_keeps(s, (n - 1) as nat);
        lemma_rotated_keeps(rotated_n(s, (n - 1) as nat));
    }
}

/// The orientation search aligns every board that some pokes align.
pub proof fn lemma_search_result_solves(s: Seq<int>, c: Seq<int>)
    requires
        in_range(s),
        solvable(s),
        is_search_result(s, c),
    ensures
        all_aligned(applied(s, c)),
{
    let i = choose|i: int|
        0 <= i < 12 && c == candidate(s, i) && (forall|j: int|
            0 <= j < 12 ==> cost(candidate(s, i)) <= #[trigger] cost(candidate(s, j))) && (forall|j: int|
            0 <= j < i ==> cost(candidate(s, i)) < #[trigger] cost(candidate(s, j)));
    let mirrored = framing_mirrored(i);
    let base = if mirrored {
        flipped(s)
    } else {
        s
    };
    if mirrored {
        lemma_flipped_keeps(s);
    }
    lemma_rotated_n_keeps(base, framing_turns(i));
    lemma_layered_solves(framed(s, mirrored, framing_turns(i)));
    crate::laws::lemma_candidate_aligns(s, i);
}

} // verus!
