//! Laws of pokes and of the orientation search.

use vstd::arithmetic::div_mod::lemma_add_mod_noop;
use vstd::multiset::Multiset;
use vstd::prelude::*;

use crate::expert::{
    after_moves, all_aligned, applied, candidate, fixup, layered, moves, partial_solve, poke_n,
    SolveState, count_at, flower_at, flower_sum, framed, framing_mirrored,
    framing_turns, in_range, layered_counts, poked, shifted, unframed,
};
use crate::hex::{
    flipped, index_of, is_valid, lemma_flip_twice_is_identity, lemma_index_of_pos,
    lemma_pos_of_index, lemma_rotate_six_times_is_identity, pos_x, pos_y, rotated, rotated_n,
};

verus! {

/// The values after the pokes at the cells `ps`, one after another.
pub open spec fn poked_all(s: Seq<int>, ps: Seq<int>) -> Seq<int>
    decreases ps.len(),
{
    if ps.len() == 0 {
        s
    } else {
        poked(poked_all(s, ps.drop_last()), ps.last())
    }
}

/// How many times each cell occurs in `ps`.
pub open spec fn counts_of(ps: Seq<int>) -> Seq<int> {
    Seq::new(37, |j: int| ps.to_multiset().count(j) as int)
}

/// Whether every entry of `ps` is the canonical index of a cell.
pub open spec fn all_cells(ps: Seq<int>) -> bool {
    forall|i: int| 0 <= i < ps.len() ==> 0 <= #[trigger] ps[i] < 37
}

pub proof fn lemma_flower_sum_update(c: Seq<int>, p: int, n: int, k: int)
    requires
        c.len() == 37,
        0 <= p < 37,
        0 <= k < 37,
    ensures
        flower_sum(c.update(p, c[p] + n), k) == flower_sum(c, k) + if flower_at(p, k) {
            n
        } else {
            0
        },
{
    lemma_pos_of_index(k);
    lemma_pos_of_index(p);
    let x = pos_x(k);
    let y = pos_y(k);
    if is_valid(x - 1, y - 1) {
        lemma_index_of_pos(x - 1, y - 1);
    }
    if is_valid(x, y - 1) {
        lemma_index_of_pos(x, y - 1);
    }
    if is_valid(x - 1, y) {
        lemma_index_of_pos(x - 1, y);
    }
    if is_valid(x, y) {
        lemma_index_of_pos(x, y);
    }
    if is_valid(x + 1, y) {
        lemma_index_of_pos(x + 1, y);
    }
    if is_valid(x, y + 1) {
        lemma_index_of_pos(x, y + 1);
    }
    if is_valid(x + 1, y + 1) {
        lemma_index_of_pos(x + 1, y + 1);
    }
}

/// Poking a cell `n` times after a poke-count map is the same as adding `n` to its count.
pub proof fn lemma_shifted_applied(s: Seq<int>, c: Seq<int>, p: int, n: int)
    requires
        s.len() == 37,
        c.len() == 37,
        0 <= p < 37,
    ensures
        shifted(applied(s, c), p, n) == applied(s, c.update(p, c[p] + n)),
{
    assert forall|k: int| 0 <= k < 37 implies #[trigger] shifted(applied(s, c), p, n)[k] == applied(
        s,
        c.update(p, c[p] + n),
    )[k] by {
        lemma_flower_sum_update(c, p, n, k);
        lemma_add_mod_noop(s[k] + flower_sum(c, k), n, 6);
        assert((s[k] + flower_sum(c, k)) % 6 % 6 == (s[k] + flower_sum(c, k)) % 6);
        assert(n % 6 % 6 == n % 6);
        lemma_add_mod_noop((s[k] + flower_sum(c, k)) % 6, n, 6);
    }
    assert(shifted(applied(s, c), p, n) =~= applied(s, c.update(p, c[p] + n)));
}

/// No pokes leave the values as they are.
pub proof fn lemma_applied_zero(s: Seq<int>)
    requires
        in_range(s),
    ensures
        applied(s, Seq::new(37, |j: int| 0int)) == s,
{
    let zeros = Seq::new(37, |j: int| 0int);
    assert forall|k: int| 0 <= k < 37 implies #[trigger] applied(s, zeros)[k] == s[k] by {
        lemma_pos_of_index(k);
    }
    assert(applied(s, zeros) =~= s);
}

/// Poking the cells of `ps` one after another gives the values that their counts give.
pub proof fn lemma_pokes_apply_counts(s: Seq<int>, ps: Seq<int>)
    requires
        in_range(s),
        all_cells(ps),
    ensures
        poked_all(s, ps) == applied(s, counts_of(ps)),
    decreases ps.len(),
{
    if ps.len() == 0 {
        lemma_applied_zero(s);
        vstd::seq_lib::to_multiset_len(ps);
        vstd::multiset::lemma_multiset_empty_len(ps.to_multiset());
        assert(ps.to_multiset() =~= Multiset::<int>::empty());
        assert(counts_of(ps) =~= Seq::new(37, |j: int| 0int));
    } else {
        let rest = ps.drop_last();
        let p = ps.last();
        assert(all_cells(rest)) by {
            assert forall|i: int| 0 <= i < rest.len() implies 0 <= #[trigger] rest[i] < 37 by {
                assert(rest[i] == ps[i]);
            }
        }
        lemma_pokes_apply_counts(s, rest);
        assert(0 <= p < 37) by {
            assert(ps[ps.len() - 1] == p);
        }
        lemma_shifted_applied(s, counts_of(rest), p, 1);
        assert(rest.push(p) == ps);
        vstd::seq_lib::to_multiset_build(rest, p);
        assert(counts_of(rest).update(p, counts_of(rest)[p] + 1) =~= counts_of(ps));
    }
}

/// The order of the pokes does not matter: two sequences of pokes with the same number of
/// pokes at each cell give the same values.
pub proof fn lemma_poke_order_independent(s: Seq<int>, ps: Seq<int>, qs: Seq<int>)
    requires
        in_range(s),
        all_cells(ps),
        ps.to_multiset() == qs.to_multiset(),
    ensures
        poked_all(s, ps) == poked_all(s, qs),
{
    assert(all_cells(qs)) by {
        assert forall|i: int| 0 <= i < qs.len() implies 0 <= #[trigger] qs[i] < 37 by {
            vstd::seq_lib::to_multiset_contains(qs, qs[i]);
            vstd::seq_lib::to_multiset_contains(ps, qs[i]);
            let j = choose|j: int| 0 <= j < ps.len() && ps[j] == qs[i];
        }
    }
    lemma_pokes_apply_counts(s, ps);
    lemma_pokes_apply_counts(s, qs);
    assert(counts_of(ps) =~= counts_of(qs));
}

proof fn lemma_rotated_flower_sum(c: Seq<int>, k: int)
    requires
        c.len() == 37,
        0 <= k < 37,
    ensures
        flower_sum(rotated(c), k) == flower_sum(
            c,
            index_of(pos_y(k), pos_y(k) - pos_x(k) + 3),
        ),
{
    lemma_pos_of_index(k);
    let x = pos_x(k);
    let y = pos_y(k);
    let j = index_of(y, y - x + 3);
    lemma_index_of_pos(y, y - x + 3);
    let ns: Seq<(int, int)> = seq![(x - 1, y - 1), (x, y - 1), (x - 1, y), (x, y), (x + 1, y), (x, y + 1), (x + 1, y + 1)];
    assert forall|i: int| 0 <= i < 7 implies #[trigger] count_at(rotated(c), ns[i].0, ns[i].1) == count_at(
        c,
        ns[i].1,
        ns[i].1 - ns[i].0 + 3,
    ) by {
        let (a, b) = ns[i];
        if is_valid(a, b) {
            lemma_index_of_pos(a, b);
        }
    }
    assert(count_at(rotated(c), ns[0].0, ns[0].1) == count_at(c, ns[0].1, ns[0].1 - ns[0].0 + 3));
    assert(count_at(rotated(c), ns[1].0, ns[1].1) == count_at(c, ns[1].1, ns[1].1 - ns[1].0 + 3));
    assert(count_at(rotated(c), ns[2].0, ns[2].1) == count_at(c, ns[2].1, ns[2].1 - ns[2].0 + 3));
    assert(count_at(rotated(c), ns[3].0, ns[3].1) == count_at(c, ns[3].1, ns[3].1 - ns[3].0 + 3));
    assert(count_at(rotated(c), ns[4].0, ns[4].1) == count_at(c, ns[4].1, ns[4].1 - ns[4].0 + 3));
    assert(count_at(rotated(c), ns[5].0, ns[5].1) == count_at(c, ns[5].1, ns[5].1 - ns[5].0 + 3));
    assert(count_at(rotated(c), ns[6].0, ns[6].1) == count_at(c, ns[6].1, ns[6].1 - ns[6].0 + 3));
}

proof fn lemma_flipped_flower_sum(c: Seq<int>, k: int)
    requires
        c.len() == 37,
        0 <= k < 37,
    ensures
        flower_sum(flipped(c), k) == flower_sum(c, index_of(pos_y(k), pos_x(k))),
{
    lemma_pos_of_index(k);
    let x = pos_x(k);
    let y = pos_y(k);
    lemma_index_of_pos(y, x);
    let ns: Seq<(int, int)> = seq![(x - 1, y - 1), (x, y - 1), (x - 1, y), (x, y), (x + 1, y), (x, y + 1), (x + 1, y + 1)];
    assert forall|i: int| 0 <= i < 7 implies #[trigger] count_at(flipped(c), ns[i].0, ns[i].1) == count_at(
        c,
        ns[i].1,
        ns[i].0,
    ) by {
        let (a, b) = ns[i];
        if is_valid(a, b) {
            lemma_index_of_pos(a, b);
        }
    }
    assert(count_at(flipped(c), ns[0].0, ns[0].1) == count_at(c, ns[0].1, ns[0].0));
    assert(count_at(flipped(c), ns[1].0, ns[1].1) == count_at(c, ns[1].1, ns[1].0));
    assert(count_at(flipped(c), ns[2].0, ns[2].1) == count_at(c, ns[2].1, ns[2].0));
    assert(count_at(flipped(c), ns[3].0, ns[3].1) == count_at(c, ns[3].1, ns[3].0));
    assert(count_at(flipped(c), ns[4].0, ns[4].1) == count_at(c, ns[4].1, ns[4].0));
    assert(count_at(flipped(c), ns[5].0, ns[5].1) == count_at(c, ns[5].1, ns[5].0));
    assert(count_at(flipped(c), ns[6].0, ns[6].1) == count_at(c, ns[6].1, ns[6].0));
}

/// Turning both a board and a poke-count map by 60 degrees turns the outcome of the pokes.
pub proof fn lemma_applied_rotated(s: Seq<int>, c: Seq<int>)
    requires
        s.len() == 37,
        c.len() == 37,
    ensures
        applied(rotated(s), rotated(c)) == rotated(applied(s, c)),
{
    assert forall|k: int| 0 <= k < 37 implies #[trigger] applied(rotated(s), rotated(c))[k] == rotated(
        applied(s, c),
    )[k] by {
        lemma_rotated_flower_sum(c, k);
        lemma_pos_of_index(k);
        lemma_index_of_pos(pos_y(k), pos_y(k) - pos_x(k) + 3);
    }
    assert(applied(rotated(s), rotated(c)) =~= rotated(applied(s, c)));
}

/// Mirroring both a board and a poke-count map mirrors the outcome of the pokes.
pub proof fn lemma_applied_flipped(s: Seq<int>, c: Seq<int>)
    requires
        s.len() == 37,
        c.len() == 37,
    ensures
        applied(flipped(s), flipped(c)) == flipped(applied(s, c)),
{
    assert forall|k: int| 0 <= k < 37 implies #[trigger] applied(flipped(s), flipped(c))[k] == flipped(
        applied(s, c),
    )[k] by {
        lemma_flipped_flower_sum(c, k);
        lemma_pos_of_index(k);
        lemma_index_of_pos(pos_y(k), pos_x(k));
    }
    assert(applied(flipped(s), flipped(c)) =~= flipped(applied(s, c)));
}

pub proof fn lemma_rotated_n_len<T>(s: Seq<T>, n: nat)
    requires
        s.len() == 37,
    ensures
        rotated_n(s, n).len() == 37,
    decreases n,
{
    if n > 0 {
        lemma_rotated_n_len(s, (n - 1) as nat);
    }
}

proof fn lemma_applied_rotated_n(s: Seq<int>, c: Seq<int>, n: nat)
    requires
        s.len() == 37,
        c.len() == 37,
    ensures
        applied(rotated_n(s, n), rotated_n(c, n)) == rotated_n(applied(s, c), n),
    decreases n,
{
    if n > 0 {
        lemma_applied_rotated_n(s, c, (n - 1) as nat);
        lemma_rotated_n_len(s, (n - 1) as nat);
        lemma_rotated_n_len(c, (n - 1) as nat);
        lemma_applied_rotated(rotated_n(s, (n - 1) as nat), rotated_n(c, (n - 1) as nat));
    }
}

proof fn lemma_rotated_n_add<T>(s: Seq<T>, a: nat, b: nat)
    ensures
        rotated_n(rotated_n(s, a), b) == rotated_n(s, a + b),
    decreases b,
{
    if b > 0 {
        lemma_rotated_n_add(s, a, (b - 1) as nat);
    }
}

pub proof fn lemma_aligned_rotated(s: Seq<int>)
    requires
        s.len() == 37,
        all_aligned(s),
    ensures
        all_aligned(rotated(s)),
{
    assert forall|k: int| 0 <= k < 37 implies #[trigger] rotated(s)[k] == 0 by {
        lemma_pos_of_index(k);
        lemma_index_of_pos(pos_y(k), pos_y(k) - pos_x(k) + 3);
    }
}

proof fn lemma_aligned_rotated_n(s: Seq<int>, n: nat)
    requires
        s.len() == 37,
        all_aligned(s),
    ensures
        all_aligned(rotated_n(s, n)),
    decreases n,
{
    if n > 0 {
        lemma_aligned_rotated_n(s, (n - 1) as nat);
        lemma_rotated_n_len(s, (n - 1) as nat);
        lemma_aligned_rotated(rotated_n(s, (n - 1) as nat));
    }
}

pub proof fn lemma_aligned_flipped(s: Seq<int>)
    requires
        s.len() == 37,
        all_aligned(s),
    ensures
        all_aligned(flipped(s)),
{
    assert forall|k: int| 0 <= k < 37 implies #[trigger] flipped(s)[k] == 0 by {
        lemma_pos_of_index(k);
        lemma_index_of_pos(pos_y(k), pos_x(k));
    }
}

proof fn lemma_flipped_len<T>(s: Seq<T>)
    requires
        s.len() == 37,
    ensures
        flipped(s).len() == 37,
{
}

/// A poke-count map that aligns one of the 12 symmetric framings of a board aligns the
/// board itself once it is mapped back to the board's frame.
pub proof fn lemma_unframed_solution_aligns(s: Seq<int>, c: Seq<int>, mirrored: bool, r: nat)
    requires
        s.len() == 37,
        c.len() == 37,
        r < 6,
        all_aligned(applied(framed(s, mirrored, r), c)),
    ensures
        all_aligned(applied(s, unframed(c, mirrored, r))),
{
    let base = if mirrored {
        flipped(s)
    } else {
        s
    };
    let back = ((6 - r) % 6) as nat;
    lemma_flipped_len(s);
    lemma_rotated_n_len(base, r);
    lemma_applied_rotated_n(framed(s, mirrored, r), c, back);
    lemma_rotated_n_len(c, back);
    lemma_aligned_rotated_n(applied(framed(s, mirrored, r), c), back);
    lemma_rotated_n_add(base, r, back);
    if r > 0 {
        assert(r + back == 6);
        lemma_rotate_six_times_is_identity(base);
        assert(rotated_n(base, 6) == rotated(rotated(rotated(rotated(rotated(rotated(base))))))) by {
            reveal_with_fuel(rotated_n, 7);
        }
    } else {
        assert(rotated_n(base, 0) == base);
    }
    assert(rotated_n(rotated_n(base, r), back) == base);
    let cb = rotated_n(c, back);
    assert(all_aligned(applied(base, cb)));
    if mirrored {
        lemma_applied_flipped(base, cb);
        lemma_aligned_flipped(applied(base, cb));
        lemma_flip_twice_is_identity(s);
    }
}

/// Each of the 12 candidates of the orientation search aligns the board whenever the
/// layered procedure aligns the corresponding framing.
pub proof fn lemma_candidate_aligns(s: Seq<int>, i: int)
    requires
        s.len() == 37,
        0 <= i < 12,
        all_aligned(
            applied(
                framed(s, framing_mirrored(i), framing_turns(i)),
                layered_counts(framed(s, framing_mirrored(i), framing_turns(i))),
            ),
        ),
    ensures
        all_aligned(applied(s, candidate(s, i))),
{
    lemma_unframed_solution_aligns(
        s,
        layered_counts(framed(s, framing_mirrored(i), framing_turns(i))),
        framing_mirrored(i),
        framing_turns(i),
    );
}

/// Every move pokes the cell one step down and right of its target, which turns the
/// target, and turns no target of an earlier move.
pub proof fn lemma_moves_geometry()
    ensures
        forall|i: int| 0 <= i < 30 ==> 0 <= #[trigger] moves()[i].0 < 37 && 0 <= moves()[i].1 < 37,
        forall|i: int| 0 <= i < 30 ==> flower_at(#[trigger] moves()[i].1, moves()[i].0),
        forall|i: int, j: int|
            0 <= j < i < 30 ==> !flower_at(#[trigger] moves()[i].1, #[trigger] moves()[j].0),
{
    assert forall|i: int| 0 <= i < 30 implies 0 <= #[trigger] moves()[i].0 < 37 && 0 <= moves()[i].1 < 37 by {
    }
    assert forall|i: int| 0 <= i < 30 implies flower_at(#[trigger] moves()[i].1, moves()[i].0) by {
    }
    assert forall|i: int, j: int|
        0 <= j < i < 30 implies !flower_at(#[trigger] moves()[i].1, #[trigger] moves()[j].0) by {
    }
}


proof fn lemma_poke_n_range(st: SolveState, p: int, n: int)
    requires
        in_range(st.0),
    ensures
        in_range(poke_n(st, p, n).0),
{
}


proof fn lemma_poke_n_applied(s: Seq<int>, st: SolveState, p: int, n: int)
    requires
        s.len() == 37,
        st.1.len() == 37,
        0 <= p < 37,
        st.0 == applied(s, st.1),
    ensures
        poke_n(st, p, n).0 == applied(s, poke_n(st, p, n).1),
        poke_n(st, p, n).1.len() == 37,
{
    lemma_shifted_applied(s, st.1, p, n);
}

/// The moves of the partial solve keep the values in range, and the first `i` of them
/// leave their targets aligned.
proof fn lemma_after_moves_targets(st: SolveState, i: nat)
    requires
        in_range(st.0),
        i <= 30,
    ensures
        in_range(after_moves(st, i).0),
        forall|j: int| 0 <= j < i ==> after_moves(st, i).0[#[trigger] moves()[j].0] == 0,
    decreases i,
{
    if i > 0 {
        lemma_after_moves_targets(st, (i - 1) as nat);
        lemma_moves_geometry();
        let prev = after_moves(st, (i - 1) as nat);
        let t = moves()[i - 1].0;
        let p = moves()[i - 1].1;
        assert(flower_at(p, t));
        lemma_poke_n_range(prev, p, (0 - prev.0[t]) % 6);
        assert forall|j: int| 0 <= j < i implies after_moves(st, i).0[#[trigger] moves()[j].0] == 0 by {
            if j < i - 1 {
                assert(!flower_at(moves()[i - 1].1, moves()[j].0));
            }
        }
    }
}

/// The moves of the partial solve keep the values equal to the pokes they count, applied
/// to the board they started from.
proof fn lemma_after_moves_applied(s: Seq<int>, st: SolveState, i: nat)
    requires
        s.len() == 37,
        st.1.len() == 37,
        st.0 == applied(s, st.1),
        i <= 30,
    ensures
        after_moves(st, i).0 == applied(s, after_moves(st, i).1),
        after_moves(st, i).1.len() == 37,
    decreases i,
{
    if i > 0 {
        lemma_after_moves_applied(s, st, (i - 1) as nat);
        lemma_moves_geometry();
        let prev = after_moves(st, (i - 1) as nat);
        let t = moves()[i - 1].0;
        let p = moves()[i - 1].1;
        lemma_poke_n_applied(s, prev, p, (0 - prev.0[t]) % 6);
    }
}

proof fn lemma_mod_term(x: int, t: int)
    ensures
        (x + t % 6) % 6 == (x + t) % 6,
{
    vstd::arithmetic::div_mod::lemma_add_mod_noop_right(x, t, 6);
}

/// Counts that agree mod 6 give the same values.
pub proof fn lemma_applied_mod(s: Seq<int>, c: Seq<int>)
    requires
        s.len() == 37,
        c.len() == 37,
    ensures
        applied(s, Seq::new(37, |k: int| c[k] % 6)) == applied(s, c),
{
    let cm = Seq::new(37, |k: int| c[k] % 6);
    assert forall|k: int| 0 <= k < 37 implies #[trigger] applied(s, cm)[k] == applied(s, c)[k] by {
        lemma_pos_of_index(k);
        let x = pos_x(k);
        let y = pos_y(k);
        let ns: Seq<(int, int)> = seq![(x - 1, y - 1), (x, y - 1), (x - 1, y), (x, y), (x + 1, y), (x, y + 1), (x + 1, y + 1)];
        assert forall|i: int| 0 <= i < 7 implies #[trigger] count_at(cm, ns[i].0, ns[i].1) == count_at(c, ns[i].0, ns[i].1) % 6 by {
            let (a, b) = ns[i];
            if is_valid(a, b) {
                lemma_index_of_pos(a, b);
            }
        }
        let t0 = count_at(c, ns[0].0, ns[0].1);
        let t1 = count_at(c, ns[1].0, ns[1].1);
        let t2 = count_at(c, ns[2].0, ns[2].1);
        let t3 = count_at(c, ns[3].0, ns[3].1);
        let t4 = count_at(c, ns[4].0, ns[4].1);
        let t5 = count_at(c, ns[5].0, ns[5].1);
        let t6 = count_at(c, ns[6].0, ns[6].1);
        assert(count_at(cm, ns[0].0, ns[0].1) == t0 % 6);
        assert(count_at(cm, ns[1].0, ns[1].1) == t1 % 6);
        assert(count_at(cm, ns[2].0, ns[2].1) == t2 % 6);
        assert(count_at(cm, ns[3].0, ns[3].1) == t3 % 6);
        assert(count_at(cm, ns[4].0, ns[4].1) == t4 % 6);
        assert(count_at(cm, ns[5].0, ns[5].1) == t5 % 6);
        assert(count_at(cm, ns[6].0, ns[6].1) == t6 % 6);
        let v = s[k];
        lemma_mod_term(v + t0 % 6 + t1 % 6 + t2 % 6 + t3 % 6 + t4 % 6 + t5 % 6, t6);
        lemma_mod_term(v + t0 % 6 + t1 % 6 + t2 % 6 + t3 % 6 + t4 % 6 + t6, t5);
        lemma_mod_term(v + t0 % 6 + t1 % 6 + t2 % 6 + t3 % 6 + t5 + t6, t4);
        lemma_mod_term(v + t0 % 6 + t1 % 6 + t2 % 6 + t4 + t5 + t6, t3);
        lemma_mod_term(v + t0 % 6 + t1 % 6 + t3 + t4 + t5 + t6, t2);
        lemma_mod_term(v + t0 % 6 + t2 + t3 + t4 + t5 + t6, t1);
        lemma_mod_term(v + t1 + t2 + t3 + t4 + t5 + t6, t0);
    }
    assert(applied(s, cm) =~= applied(s, c));
}

/// Applying the poke-count map of the layered procedure to a board aligns each of the 30
/// target cells of the partial solve.
pub proof fn lemma_layered_aligns_targets(s: Seq<int>)
    requires
        in_range(s),
    ensures
        applied(s, layered_counts(s)) == layered(s).0,
        forall|i: int| 0 <= i < 30 ==> applied(s, layered_counts(s))[#[trigger] moves()[i].0] == 0,
{
    let zeros = Seq::new(37, |j: int| 0int);
    let st0: SolveState = (s, zeros);
    lemma_applied_zero(s);
    lemma_after_moves_applied(s, st0, 30);
    lemma_after_moves_targets(st0, 30);
    let st1 = partial_solve(st0);
    let d6 = st1.0[21];
    let e6 = st1.0[27];
    let f6 = st1.0[32];
    let a = e6 % 6 + (0 - d6) % 6;
    let b_d = (0 - e6) % 6;
    let c = if (d6 + f6) % 2 == 0 {
        0
    } else {
        3
    };
    let q1 = poke_n(st1, 0, a);
    let q2 = poke_n(q1, 1, b_d);
    let q3 = poke_n(q2, 2, c);
    lemma_poke_n_applied(s, st1, 0, a);
    lemma_poke_n_applied(s, q1, 1, b_d);
    lemma_poke_n_applied(s, q2, 2, c);
    lemma_poke_n_applied(s, q3, 3, b_d);
    lemma_poke_n_range(st1, 0, a);
    lemma_poke_n_range(q1, 1, b_d);
    lemma_poke_n_range(q2, 2, c);
    lemma_poke_n_range(q3, 3, b_d);
    let st2 = fixup(st1);
    assert(st2 == poke_n(q3, 3, b_d));
    lemma_after_moves_applied(s, st2, 30);
    lemma_after_moves_targets(st2, 30);
    let st3 = partial_solve(st2);
    assert(st3 == layered(s));
    lemma_applied_mod(s, st3.1);
    assert(layered_counts(s) == Seq::new(37, |k: int| st3.1[k] % 6));
}
} // verus!
