//! The hexagon-shaped grid of 37 cells, its canonical order, and its symmetries.

use vstd::prelude::*;

verus! {

/// Whether `(x, y)` is one of the 37 cells of the hexagon inside the 7x7 index space.
pub open spec fn is_valid(x: int, y: int) -> bool {
    0 <= x < 7 && 0 <= y < 7 && x <= y + 3 && y <= x + 3
}

/// Smallest `x` of a valid cell on row `y`.
pub open spec fn row_min_x(y: int) -> int {
    if y <= 3 {
        0
    } else {
        y - 3
    }
}

/// Canonical index of the first cell of row `y`.
pub open spec fn row_start(y: int) -> int {
    if y <= 0 {
        0
    } else if y == 1 {
        4
    } else if y == 2 {
        9
    } else if y == 3 {
        15
    } else if y == 4 {
        22
    } else if y == 5 {
        28
    } else {
        33
    }
}

/// Canonical index of the valid cell `(x, y)`.
pub open spec fn index_of(x: int, y: int) -> int {
    row_start(y) + x - row_min_x(y)
}

/// Row of the cell with canonical index `k`.
pub open spec fn pos_y(k: int) -> int {
    if k < 4 {
        0
    } else if k < 9 {
        1
    } else if k < 15 {
        2
    } else if k < 22 {
        3
    } else if k < 28 {
        4
    } else if k < 33 {
        5
    } else {
        6
    }
}

/// Column of the cell with canonical index `k`.
pub open spec fn pos_x(k: int) -> int {
    k - row_start(pos_y(k)) + row_min_x(pos_y(k))
}

pub proof fn lemma_pos_of_index(k: int)
    requires
        0 <= k < 37,
    ensures
        is_valid(pos_x(k), pos_y(k)),
        index_of(pos_x(k), pos_y(k)) == k,
{
}

pub proof fn lemma_index_of_pos(x: int, y: int)
    requires
        is_valid(x, y),
    ensures
        0 <= index_of(x, y) < 37,
        pos_x(index_of(x, y)) == x,
        pos_y(index_of(x, y)) == y,
{
}

/// A cell of the hexagon, as a column `x` and a row `y`.
#[derive(Debug, Clone, Copy, PartialEq, Eq, Structural)]
pub struct Position {
    pub x: usize,
    pub y: usize,
}

impl Position {
    pub fn as_xy(self) -> (r: (usize, usize))
        ensures
            r == (self.x, self.y),
    {
        (self.x, self.y)
    }

    /// Slot of the cell in a row-major 7x7 layout.
    pub fn as_index(self) -> (r: usize)
        requires
            self.x + 7 * self.y <= usize::MAX,
        ensures
            r == self.x + 7 * self.y,
    {
        self.x + 7 * self.y
    }
}

/// The cell with canonical index `k`.
pub fn position_at(k: usize) -> (p: Position)
    requires
        k < 37,
    ensures
        p.x == pos_x(k as int),
        p.y == pos_y(k as int),
{
    let y: usize = if k < 4 {
        0
    } else if k < 9 {
        1
    } else if k < 15 {
        2
    } else if k < 22 {
        3
    } else if k < 28 {
        4
    } else if k < 33 {
        5
    } else {
        6
    };
    let start: usize = if y == 0 {
        0
    } else if y == 1 {
        4
    } else if y == 2 {
        9
    } else if y == 3 {
        15
    } else if y == 4 {
        22
    } else if y == 5 {
        28
    } else {
        33
    };
    let min_x: usize = if y <= 3 {
        0
    } else {
        y - 3
    };
    Position { x: k - start + min_x, y }
}

/// The canonical index of `(x, y)`, or `None` where it is no cell of the hexagon.
pub fn index_at(x: usize, y: usize) -> (r: Option<usize>)
    ensures
        r == (if is_valid(x as int, y as int) {
            Some(index_of(x as int, y as int) as usize)
        } else {
            None
        }),
{
    if x < 7 && y < 7 && x <= y + 3 && y <= x + 3 {
        let start: usize = if y == 0 {
            0
        } else if y == 1 {
            4
        } else if y == 2 {
            9
        } else if y == 3 {
            15
        } else if y == 4 {
            22
        } else if y == 5 {
            28
        } else {
            33
        };
        let min_x: usize = if y <= 3 {
            0
        } else {
            y - 3
        };
        Some(start + x - min_x)
    } else {
        None
    }
}


/// Source cell of `(x, y)` under a clockwise turn by 60 degrees.
pub open spec fn rotation_source(x: int, y: int) -> (int, int) {
    (y, y - x + 3)
}

/// The cell contents after a clockwise turn by 60 degrees.
pub open spec fn rotated<T>(s: Seq<T>) -> Seq<T> {
    Seq::new(
        37,
        |k: int| s[index_of(rotation_source(pos_x(k), pos_y(k)).0, rotation_source(pos_x(k), pos_y(k)).1)],
    )
}

/// The cell contents mirrored so that the two hex axes swap.
pub open spec fn flipped<T>(s: Seq<T>) -> Seq<T> {
    Seq::new(37, |k: int| s[index_of(pos_y(k), pos_x(k))])
}

/// Turning the hexagon by 60 degrees six times brings every value back to its own cell.
pub proof fn lemma_rotate_six_times_is_identity<T>(s: Seq<T>)
    requires
        s.len() == 37,
    ensures
        rotated(rotated(rotated(rotated(rotated(rotated(s)))))) == s,
{
    let r1 = rotated(s);
    let r2 = rotated(r1);
    let r3 = rotated(r2);
    assert forall|k: int| 0 <= k < 37 implies #[trigger] r3[k] == s[index_of(
        6 - pos_x(k),
        6 - pos_y(k),
    )] by {
        lemma_pos_of_index(k);
        let (x1, y1) = rotation_source(pos_x(k), pos_y(k));
        lemma_index_of_pos(x1, y1);
        let (x2, y2) = rotation_source(x1, y1);
        lemma_index_of_pos(x2, y2);
    }
    let r6 = rotated(rotated(rotated(r3)));
    assert forall|k: int| 0 <= k < 37 implies #[trigger] r6[k] == s[k] by {
        lemma_pos_of_index(k);
        let (x1, y1) = rotation_source(pos_x(k), pos_y(k));
        lemma_index_of_pos(x1, y1);
        let (x2, y2) = rotation_source(x1, y1);
        lemma_index_of_pos(x2, y2);
        let (x3, y3) = rotation_source(x2, y2);
        lemma_index_of_pos(x3, y3);
        let j = index_of(x3, y3);
        lemma_index_of_pos(6 - x3, 6 - y3);
    }
    assert(r6 =~= s);
}

/// Mirroring the hexagon twice brings every value back to its own cell.
pub proof fn lemma_flip_twice_is_identity<T>(s: Seq<T>)
    requires
        s.len() == 37,
    ensures
        flipped(flipped(s)) == s,
{
    assert forall|k: int| 0 <= k < 37 implies #[trigger] flipped(flipped(s))[k] == s[k] by {
        lemma_pos_of_index(k);
        lemma_index_of_pos(pos_y(k), pos_x(k));
    }
    assert(flipped(flipped(s)) =~= s);
}

/// The cell contents after `n` clockwise turns by 60 degrees.
pub open spec fn rotated_n<T>(s: Seq<T>, n: nat) -> Seq<T>
    decreases n,
{
    if n == 0 {
        s
    } else {
        rotated(rotated_n(s, (n - 1) as nat))
    }
}

/// One value for each of the 37 cells of the hexagon, stored in canonical order:
/// row by row, and by column within a row.
#[derive(Debug, Clone, PartialEq, Eq)]
pub struct Hex<T> {
    cells: Vec<T>,
}

impl<T> View for Hex<T> {
    type V = Seq<T>;

    closed spec fn view(&self) -> Seq<T> {
        self.cells@
    }
}

impl<T> Hex<T> {
    pub open spec fn wf(&self) -> bool {
        self@.len() == 37
    }

    /// The value at the valid cell `(x, y)`.
    pub open spec fn spec_at(&self, x: int, y: int) -> T {
        self@[index_of(x, y)]
    }

    /// Builds a grid by calling `f(x, y)` once for each cell, in canonical order.
    pub fn from_fn<F: Fn(usize, usize) -> T>(f: F) -> (r: Hex<T>)
        requires
            forall|x: usize, y: usize| is_valid(x as int, y as int) ==> f.requires((x, y)),
        ensures
            r.wf(),
            forall|k: int|
                0 <= k < 37 ==> f.ensures((pos_x(k) as usize, pos_y(k) as usize), #[trigger] r@[k]),
    {
        let mut cells: Vec<T> = Vec::new();
        let mut k: usize = 0;
        while k < 37
            invariant
                k <= 37,
                cells@.len() == k,
                forall|x: usize, y: usize| is_valid(x as int, y as int) ==> f.requires((x, y)),
                forall|j: int|
                    0 <= j < k ==> f.ensures((pos_x(j) as usize, pos_y(j) as usize), #[trigger] cells@[j]),
            decreases 37 - k,
        {
            let p = position_at(k);
            proof {
                lemma_pos_of_index(k as int);
            }
            let t = f(p.x, p.y);
            cells.push(t);
            k += 1;
        }
        Hex { cells }
    }

    /// The value at `(x, y)`, or `None` where `(x, y)` is no cell of the hexagon.
    pub fn at(&self, x: usize, y: usize) -> (r: Option<&T>)
        requires
            self.wf(),
        ensures
            match r {
                Some(t) => is_valid(x as int, y as int) && *t == self.spec_at(x as int, y as int),
                None => !is_valid(x as int, y as int),
            },
    {
        match index_at(x, y) {
            Some(i) => {
                proof {
                    lemma_index_of_pos(x as int, y as int);
                }
                Some(&self.cells[i])
            },
            None => None,
        }
    }

    /// Maps every value by `f` in canonical order, stopping at the first error.
    pub fn try_map_by_ref<U, E, F: Fn(&T) -> Result<U, E>>(&self, f: F) -> (r: Result<Hex<U>, E>)
        requires
            self.wf(),
            forall|t: &T| f.requires((t,)),
        ensures
            match r {
                Ok(h) => h.wf() && forall|k: int|
                    0 <= k < 37 ==> f.ensures((&self@[k],), Ok::<U, E>(#[trigger] h@[k])),
                Err(e) => exists|k: int| 0 <= k < 37 && f.ensures((&self@[k],), Err::<U, E>(e)),
            },
    {
        let mut cells: Vec<U> = Vec::new();
        let mut k: usize = 0;
        while k < 37
            invariant
                k <= 37,
                self.wf(),
                forall|t: &T| f.requires((t,)),
                cells@.len() == k,
                forall|j: int| 0 <= j < k ==> f.ensures((&self@[j],), Ok::<U, E>(#[trigger] cells@[j])),
            decreases 37 - k,
        {
            match f(&self.cells[k]) {
                Ok(u) => {
                    cells.push(u);
                },
                Err(e) => {
                    return Err(e);
                },
            }
            k += 1;
        }
        Ok(Hex { cells })
    }

    /// A mutable reference to the value at `(x, y)`, or `None` where `(x, y)` is no cell of
    /// the hexagon.
    pub fn at_mut(&mut self, x: usize, y: usize) -> (r: Option<&mut T>)
        requires
            old(self).wf(),
        ensures
            match r {
                Some(t) => is_valid(x as int, y as int) && *t == old(self).spec_at(x as int, y as int)
                    && final(self)@ == old(self)@.update(index_of(x as int, y as int), *final(t)),
                None => !is_valid(x as int, y as int) && final(self)@ == old(self)@,
            },
    {
        match index_at(x, y) {
            Some(i) => {
                proof {
                    lemma_index_of_pos(x as int, y as int);
                }
                Some(&mut self.cells[i])
            },
            None => None,
        }
    }

    /// Each value with its cell, in canonical order.
    pub fn enumerate(&self) -> (r: Vec<(&T, Position)>)
        requires
            self.wf(),
        ensures
            r@.len() == 37,
            forall|k: int|
                0 <= k < 37 ==> *(#[trigger] r@[k]).0 == self@[k] && r@[k].1.x == pos_x(k)
                    && r@[k].1.y == pos_y(k),
    {
        let mut r: Vec<(&T, Position)> = Vec::new();
        let mut k: usize = 0;
        while k < 37
            invariant
                k <= 37,
                self.wf(),
                r@.len() == k,
                forall|j: int|
                    0 <= j < k ==> *(#[trigger] r@[j]).0 == self@[j] && r@[j].1.x == pos_x(j)
                        && r@[j].1.y == pos_y(j),
            decreases 37 - k,
        {
            let p = position_at(k);
            r.push((&self.cells[k], p));
            k += 1;
        }
        r
    }
}

impl<T: Copy> Hex<T> {
    /// A grid with the same values.
    pub(crate) fn duplicate(&self) -> (r: Hex<T>)
        requires
            self.wf(),
        ensures
            r.wf(),
            r@ == self@,
    {
        let mut cells: Vec<T> = Vec::new();
        let mut k: usize = 0;
        while k < 37
            invariant
                k <= 37,
                self.wf(),
                cells@ == self@.subrange(0, k as int),
            decreases 37 - k,
        {
            cells.push(self.cells[k]);
            k += 1;
            assert(cells@ =~= self@.subrange(0, k as int));
        }
        assert(cells@ =~= self@);
        Hex { cells }
    }

    /// Moves every value to the cell 60 degrees clockwise from its own.
    pub fn rotate_60_cw(&mut self)
        requires
            old(self).wf(),
        ensures
            final(self).wf(),
            final(self)@ == rotated(old(self)@),
    {
        let mut cells: Vec<T> = Vec::new();
        let mut k: usize = 0;
        while k < 37
            invariant
                k <= 37,
                self.wf(),
                cells@.len() == k,
                forall|j: int| 0 <= j < k ==> #[trigger] cells@[j] == rotated(self@)[j],
            decreases 37 - k,
        {
            let p = position_at(k);
            proof {
                lemma_pos_of_index(k as int);
            }
            let i = index_of_valid(p.y, p.y + 3 - p.x);
            cells.push(self.cells[i]);
            k += 1;
        }
        proof {
            assert(cells@ =~= rotated(self@));
        }
        self.cells = cells;
    }

    /// Mirrors the grid: the value at `(x, y)` moves to `(y, x)`.
    pub fn flip_horizontally(&mut self)
        requires
            old(self).wf(),
        ensures
            final(self).wf(),
            final(self)@ == flipped(old(self)@),
    {
        let mut cells: Vec<T> = Vec::new();
        let mut k: usize = 0;
        while k < 37
            invariant
                k <= 37,
                self.wf(),
                cells@.len() == k,
                forall|j: int| 0 <= j < k ==> #[trigger] cells@[j] == flipped(self@)[j],
            decreases 37 - k,
        {
            let p = position_at(k);
            proof {
                lemma_pos_of_index(k as int);
            }
            let i = index_of_valid(p.y, p.x);
            cells.push(self.cells[i]);
            k += 1;
        }
        proof {
            assert(cells@ =~= flipped(self@));
        }
        self.cells = cells;
    }
}

/// The cell drawn at slot `i` of the 13-row, 7-column text layout, as a canonical index,
/// or -1 where the slot stays blank. Row `x + y` and column `3 + x - y` show `(x, y)`.
pub open spec fn slot_cell(i: int) -> int {
    let row = i / 7;
    let col = i % 7;
    let a = row + col - 3;
    let b = row - col + 3;
    if a >= 0 && b >= 0 && a % 2 == 0 && is_valid(a / 2, b / 2) {
        index_of(a / 2, b / 2)
    } else {
        -1
    }
}

/// The text shown at slot `i`.
pub open spec fn slot_text(texts: Seq<Seq<char>>, i: int) -> Seq<char> {
    if slot_cell(i) >= 0 {
        texts[slot_cell(i)]
    } else {
        Seq::empty()
    }
}

/// The length of the longest of the first `n` texts.
pub open spec fn longest(texts: Seq<Seq<char>>, n: int) -> int
    decreases n,
{
    if n <= 0 {
        0
    } else if texts[n - 1].len() > longest(texts, n - 1) {
        texts[n - 1].len() as int
    } else {
        longest(texts, n - 1)
    }
}

/// `t` padded with spaces on the right up to `w` characters.
pub open spec fn padded(t: Seq<char>, w: int) -> Seq<char> {
    if t.len() < w {
        t + Seq::new((w - t.len()) as nat, |i: int| ' ')
    } else {
        t
    }
}

/// What follows slot `i`: a space within a row, a line break between rows.
pub open spec fn separator(i: int) -> Seq<char> {
    if i % 7 != 6 {
        seq![' ']
    } else if i / 7 != 12 {
        seq!['\n']
    } else {
        Seq::empty()
    }
}

/// The first `n` slots of the layout, each padded to width `w`.
pub open spec fn layout_upto(texts: Seq<Seq<char>>, w: int, n: int) -> Seq<char>
    decreases n,
{
    if n <= 0 {
        Seq::empty()
    } else {
        layout_upto(texts, w, n - 1) + padded(slot_text(texts, n - 1), w) + separator(n - 1)
    }
}

/// The hexagon drawn as text: 13 rows of 7 slots, each padded to the longest text.
pub open spec fn layout(texts: Seq<Seq<char>>) -> Seq<char> {
    layout_upto(texts, longest(texts, 37), 91)
}

/// The cell drawn at slot `i` of the layout, if any.
fn slot_cell_exec(i: usize) -> (r: Option<usize>)
    requires
        i < 91,
    ensures
        match r {
            Some(k) => slot_cell(i as int) == k as int && k < 37,
            None => slot_cell(i as int) == -1,
        },
{
    let row = i / 7;
    let col = i % 7;
    if row + col >= 3 && row + 3 >= col && (row + col - 3) % 2 == 0 {
        let x = (row + col - 3) / 2;
        let y = (row + 3 - col) / 2;
        match index_at(x, y) {
            Some(k) => {
                proof {
                    lemma_index_of_pos(x as int, y as int);
                }
                Some(k)
            },
            None => None,
        }
    } else {
        None
    }
}

/// Draws the texts of the 37 cells, given in canonical order, as a hexagon: 13 rows of 7
/// slots, each padded with spaces to the longest text, blank where there is no cell.
pub fn layout_texts(texts: &Vec<String>) -> (r: String)
    requires
        texts@.len() == 37,
    ensures
        r@ == layout(texts@.map_values(|t: String| t@)),
{
    let ghost views = texts@.map_values(|t: String| t@);
    let mut w: usize = 0;
    let mut k: usize = 0;
    while k < 37
        invariant
            k <= 37,
            texts@.len() == 37,
            views == texts@.map_values(|t: String| t@),
            w as int == longest(views, k as int),
        decreases 37 - k,
    {
        let n = texts[k].unicode_len();
        if n > w {
            w = n;
        }
        k += 1;
    }
    let mut out = String::new();
    let mut i: usize = 0;
    while i < 91
        invariant
            i <= 91,
            texts@.len() == 37,
            views == texts@.map_values(|t: String| t@),
            w as int == longest(views, 37),
            out@ == layout_upto(views, w as int, i as int),
        decreases 91 - i,
    {
        let ghost before = out@;
        let mut len: usize = 0;
        match slot_cell_exec(i) {
            Some(k) => {
                out.append(texts[k].as_str());
                len = texts[k].unicode_len();
            },
            None => {},
        }
        assert(out@ == before + slot_text(views, i as int));
        let mut j: usize = len;
        while j < w
            invariant
                len <= j,
                j <= w || len > w,
                len >= w ==> j == len,
                len == slot_text(views, i as int).len(),
                out@ == before + slot_text(views, i as int) + Seq::new((j - len) as nat, |q: int| ' '),
            decreases w - j,
        {
            out.append(" ");
            proof {
                reveal_strlit(" ");
            }
            assert(out@ =~= before + slot_text(views, i as int) + Seq::new((j + 1 - len) as nat, |q: int| ' '));
            j += 1;
        }
        proof {
            if len < w {
                assert(out@ == before + padded(slot_text(views, i as int), w as int));
            } else {
                assert(Seq::new((j - len) as nat, |q: int| ' ') =~= Seq::<char>::empty());
                assert(out@ =~= before + padded(slot_text(views, i as int), w as int));
            }
        }
        if i % 7 != 6 {
            out.append(" ");
        } else if i / 7 != 12 {
            out.append("\n");
        }
        proof {
            reveal_strlit(" ");
            reveal_strlit("\n");
        }
        assert(out@ =~= layout_upto(views, w as int, i + 1));
        i += 1;
    }
    out
}

impl<T> Hex<T> {
    /// Draws the grid as a hexagon of text, showing each value as `f` renders it.
    pub fn visualize<F: Fn(&T) -> String>(&self, f: F) -> (r: String)
        requires
            self.wf(),
            forall|t: &T| f.requires((t,)),
        ensures
            exists|texts: Seq<String>|
                texts.len() == 37 && (forall|k: int|
                    0 <= k < 37 ==> f.ensures((&self@[k],), #[trigger] texts[k])) && r@ == layout(
                    texts.map_values(|t: String| t@),
                ),
    {
        let mut texts: Vec<String> = Vec::new();
        let mut k: usize = 0;
        while k < 37
            invariant
                k <= 37,
                self.wf(),
                forall|t: &T| f.requires((t,)),
                texts@.len() == k,
                forall|j: int| 0 <= j < k ==> f.ensures((&self@[j],), #[trigger] texts@[j]),
            decreases 37 - k,
        {
            let t = f(&self.cells[k]);
            texts.push(t);
            k += 1;
        }
        layout_texts(&texts)
    }
}

/// The canonical index of the valid cell `(x, y)`.
fn index_of_valid(x: usize, y: usize) -> (r: usize)
    requires
        is_valid(x as int, y as int),
    ensures
        r == index_of(x as int, y as int),
        r < 37,
{
    match index_at(x, y) {
        Some(i) => i,
        None => 0,
    }
}

} // verus!
