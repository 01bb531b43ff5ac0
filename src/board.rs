//! The packed board: nine cells of two bits each in one `u32`.
//!
//! Cell `(x, y)` with `x, y` in `0..3` has index `3 * y + x` and sits at bit
//! offset `2 * index`. Its two bits hold `0` (empty), `1` (first player's
//! mark) or `2` (second player's mark).
use vstd::prelude::*;

verus! {

/// Value of an empty cell.
pub const EMPTY_CELL: u32 = 0;

/// Value of a cell marked by the first player.
pub const MARK_A: u32 = 1;

/// Value of a cell marked by the second player.
pub const MARK_B: u32 = 2;

/// Every packed board lies below this bound (nine two-bit cells).
pub const GRID_BOUND: u32 = 0x40000;

/// What a cell shows to an observer.
#[derive(Clone, Copy, Debug, PartialEq, Eq, Structural)]
pub enum Mark {
    Empty,
    X,
    O,
}

/// The two-bit value of cell `i` (row-major index) of a packed board.
pub open spec fn cell(grid: u32, i: u32) -> u32 {
    (grid >> ((i * 2) as u32)) & 3u32
}

/// A packed board: nine cells, none of them holding the unused value `3`.
pub open spec fn valid_grid(grid: u32) -> bool {
    &&& grid < GRID_BOUND
    &&& forall|i: u32| i < 9 ==> #[trigger] cell(grid, i) != 3
}

/// Number of non-empty cells among the first `n` cells.
pub open spec fn filled_upto(grid: u32, n: u32) -> nat
    decreases n,
{
    if n == 0 {
        0
    } else {
        filled_upto(grid, (n - 1) as u32) + if cell(grid, (n - 1) as u32) != EMPTY_CELL {
            1nat
        } else {
            0nat
        }
    }
}

/// Number of non-empty cells of the board.
pub open spec fn filled_count(grid: u32) -> nat {
    filled_upto(grid, 9)
}

/// The symbol shown for a cell value.
pub open spec fn mark_of(v: u32) -> Mark {
    if v == MARK_A {
        Mark::X
    } else if v == MARK_B {
        Mark::O
    } else {
        Mark::Empty
    }
}

/// The nine symbols of a board, row-major from `(0, 0)`.
pub open spec fn marks(grid: u32) -> Seq<Mark> {
    Seq::new(9, |i: int| mark_of(cell(grid, i as u32)))
}

/// Row-major index of cell `(x, y)`.
pub open spec fn index_of(x: u32, y: u32) -> u32 {
    (3 * y + x) as u32
}

/// The board after writing `m` into the empty cell `i`.
pub open spec fn marked(grid: u32, i: u32, m: u32) -> u32 {
    grid | (m << ((i * 2) as u32))
}

/// The three cells `a`, `b`, `c` all hold `m`.
pub open spec fn owns(grid: u32, a: u32, b: u32, c: u32, m: u32) -> bool {
    cell(grid, a) == m && cell(grid, b) == m && cell(grid, c) == m
}

/// Some row, column or diagonal holds `m` in all three cells.
pub open spec fn has_line(grid: u32, m: u32) -> bool {
    ||| owns(grid, 0, 1, 2, m)
    ||| owns(grid, 3, 4, 5, m)
    ||| owns(grid, 6, 7, 8, m)
    ||| owns(grid, 0, 3, 6, m)
    ||| owns(grid, 1, 4, 7, m)
    ||| owns(grid, 2, 5, 8, m)
    ||| owns(grid, 0, 4, 8, m)
    ||| owns(grid, 2, 4, 6, m)
}

/// Bit offset and two-bit mask of cell `(pos_x, pos_y)`.
pub fn get_cell_pos(pos_x: u32, pos_y: u32) -> (r: (u32, u32))
    requires
        pos_x <= 2,
        pos_y <= 2,
    ensures
        r.0 == 2 * index_of(pos_x, pos_y),
        r.0 <= 16,
        r.1 == 3u32 << r.0,
{
    let index = pos_y * 3 + pos_x;
    let offset = index << 1;
    assert(offset == 2 * index) by (bit_vector)
        requires
            index <= 8,
            offset == index << 1,
    ;
    let mask = 0b11u32 << offset;
    (offset, mask)
}

proof fn lemma_cell_at_offset(grid: u32, i: u32, offset: u32, mask: u32)
    requires
        i < 9,
        offset == 2 * i,
        mask == 3u32 << offset,
    ensures
        (grid & mask) >> offset == cell(grid, i),
{
    assert((grid & mask) >> offset == (grid >> ((i * 2) as u32)) & 3u32) by (bit_vector)
        requires
            i < 9,
            offset == 2 * i,
            mask == 3u32 << offset,
    ;
}

/// Value of cell `(pos_x, pos_y)`.
pub fn cell_value(grid: u32, pos_x: u32, pos_y: u32) -> (r: u32)
    requires
        pos_x <= 2,
        pos_y <= 2,
    ensures
        r == cell(grid, index_of(pos_x, pos_y)),
{
    let (offset, mask) = get_cell_pos(pos_x, pos_y);
    proof {
        lemma_cell_at_offset(grid, index_of(pos_x, pos_y), offset, mask);
    }
    (grid & mask) >> offset
}

/// Whether cell `(pos_x, pos_y)` is empty.
pub fn is_empty_cell(grid: u32, pos_x: u32, pos_y: u32) -> (r: bool)
    requires
        pos_x <= 2,
        pos_y <= 2,
    ensures
        r == (cell(grid, index_of(pos_x, pos_y)) == EMPTY_CELL),
{
    cell_value(grid, pos_x, pos_y) == EMPTY_CELL
}

proof fn lemma_marked_cells(grid: u32, i: u32, m: u32, j: u32)
    requires
        i < 9,
        j < 9,
        m <= 3,
        cell(grid, i) == 0,
    ensures
        cell(marked(grid, i, m), j) == if j == i {
            m
        } else {
            cell(grid, j)
        },
{
    assert(((grid | (m << ((i * 2) as u32))) >> ((j * 2) as u32)) & 3u32 == if j == i {
        m
    } else {
        (grid >> ((j * 2) as u32)) & 3u32
    }) by (bit_vector)
        requires
            i < 9,
            j < 9,
            m <= 3,
            (grid >> ((i * 2) as u32)) & 3u32 == 0,
    ;
}

proof fn lemma_marked_bound(grid: u32, i: u32, m: u32)
    requires
        i < 9,
        m <= 3,
        grid < GRID_BOUND,
    ensures
        marked(grid, i, m) < GRID_BOUND,
{
    assert((grid | (m << ((i * 2) as u32))) < 0x40000u32) by (bit_vector)
        requires
            i < 9,
            m <= 3,
            grid < 0x40000u32,
    ;
}

proof fn lemma_marked_filled(grid: u32, i: u32, m: u32, n: u32)
    requires
        i < 9,
        n <= 9,
        1 <= m <= 2,
        cell(grid, i) == 0,
    ensures
        filled_upto(marked(grid, i, m), n) == filled_upto(grid, n) + if i < n {
            1nat
        } else {
            0nat
        },
    decreases n,
{
    if n > 0 {
        lemma_marked_filled(grid, i, m, (n - 1) as u32);
        lemma_marked_cells(grid, i, m, (n - 1) as u32);
    }
}

/// The board after cell `(pos_x, pos_y)`, which is empty, receives mark `m`.
pub fn mark_cell(grid: u32, pos_x: u32, pos_y: u32, m: u32) -> (r: u32)
    requires
        valid_grid(grid),
        pos_x <= 2,
        pos_y <= 2,
        m == MARK_A || m == MARK_B,
        cell(grid, index_of(pos_x, pos_y)) == EMPTY_CELL,
    ensures
        r == marked(grid, index_of(pos_x, pos_y), m),
        valid_grid(r),
        forall|j: u32|
            j < 9 ==> #[trigger] cell(r, j) == if j == index_of(pos_x, pos_y) {
                m
            } else {
                cell(grid, j)
            },
        filled_count(r) == filled_count(grid) + 1,
{
    let (offset, _) = get_cell_pos(pos_x, pos_y);
    let r = grid | (m << offset);
    proof {
        let i = index_of(pos_x, pos_y);
        assert(r == marked(grid, i, m));
        assert forall|j: u32| j < 9 implies #[trigger] cell(r, j) == if j == i {
            m
        } else {
            cell(grid, j)
        } by {
            lemma_marked_cells(grid, i, m, j);
        }
        lemma_marked_bound(grid, i, m);
        lemma_marked_filled(grid, i, m, 9);
    }
    r
}

/// Value of cell `i` (row-major index).
pub fn cell_at(grid: u32, i: u32) -> (r: u32)
    requires
        i < 9,
    ensures
        r == cell(grid, i),
{
    (grid >> (i * 2)) & 3
}

/// The symbol shown for a cell value.
pub fn symbol(v: u32) -> (r: Mark)
    ensures
        r == mark_of(v),
{
    if v == MARK_A {
        Mark::X
    } else if v == MARK_B {
        Mark::O
    } else {
        Mark::Empty
    }
}

/// The nine symbols of a packed board, row-major from `(0, 0)`.
pub fn decode(grid: u32) -> (r: Vec<Mark>)
    ensures
        r@ == marks(grid),
{
    let mut res: Vec<Mark> = Vec::new();
    let mut i: u32 = 0;
    while i < 9
        invariant
            i <= 9,
            res@.len() == i,
            forall|k: int| 0 <= k < i ==> res@[k] == mark_of(cell(grid, k as u32)),
        decreases 9 - i,
    {
        res.push(symbol(cell_at(grid, i)));
        i = i + 1;
    }
    assert(res@ =~= marks(grid));
    res
}

fn owns_line(grid: u32, a: u32, b: u32, c: u32, m: u32) -> (r: bool)
    requires
        a < 9,
        b < 9,
        c < 9,
    ensures
        r == owns(grid, a, b, c, m),
{
    cell_at(grid, a) == m && cell_at(grid, b) == m && cell_at(grid, c) == m
}

/// Whether mark `m` fills some row, column or diagonal.
pub fn line_of(grid: u32, m: u32) -> (r: bool)
    ensures
        r == has_line(grid, m),
{
    owns_line(grid, 0, 1, 2, m) || owns_line(grid, 3, 4, 5, m) || owns_line(grid, 6, 7, 8, m)
        || owns_line(grid, 0, 3, 6, m) || owns_line(grid, 1, 4, 7, m) || owns_line(
        grid,
        2,
        5,
        8,
        m,
    ) || owns_line(grid, 0, 4, 8, m) || owns_line(grid, 2, 4, 6, m)
}

/// Whether `grid` is a well-formed packed board.
pub fn is_valid_grid(grid: u32) -> (r: bool)
    ensures
        r == valid_grid(grid),
{
    if grid >= GRID_BOUND {
        return false;
    }
    let mut i: u32 = 0;
    while i < 9
        invariant
            i <= 9,
            forall|k: u32| k < i ==> #[trigger] cell(grid, k) != 3,
        decreases 9 - i,
    {
        if cell_at(grid, i) == 3 {
            return false;
        }
        i = i + 1;
    }
    true
}

/// Number of non-empty cells of the board.
pub fn count_filled(grid: u32) -> (r: u32)
    ensures
        r == filled_count(grid),
{
    let mut count: u32 = 0;
    let mut i: u32 = 0;
    while i < 9
        invariant
            i <= 9,
            count <= i,
            count == filled_upto(grid, i),
        decreases 9 - i,
    {
        if cell_at(grid, i) != EMPTY_CELL {
            count = count + 1;
        }
        i = i + 1;
    }
    count
}

/// Number of symbols of `ms` that are not empty.
pub open spec fn count_marked(ms: Seq<Mark>) -> nat
    decreases ms.len(),
{
    if ms.len() == 0 {
        0
    } else {
        count_marked(ms.drop_last()) + if ms.last() != Mark::Empty {
            1nat
        } else {
            0nat
        }
    }
}

proof fn lemma_count_marked_upto(grid: u32, n: u32)
    requires
        valid_grid(grid),
        n <= 9,
    ensures
        count_marked(marks(grid).take(n as int)) == filled_upto(grid, n),
    decreases n,
{
    if n > 0 {
        lemma_count_marked_upto(grid, (n - 1) as u32);
        assert(marks(grid).take(n as int).drop_last() =~= marks(grid).take(n - 1));
        let k = (n - 1) as u32;
        assert(cell(grid, k) != 3);
        assert((grid >> ((k * 2) as u32)) & 3u32 <= 3u32) by (bit_vector);
        assert(marks(grid).take(n as int).last() == mark_of(cell(grid, (n - 1) as u32)));
    } else {
        assert(marks(grid).take(0) =~= Seq::<Mark>::empty());
    }
}

/// On a well-formed board, the number of marks equals the number of
/// non-empty symbols shown.
pub proof fn lemma_count_marked(grid: u32)
    requires
        valid_grid(grid),
    ensures
        count_marked(marks(grid)) == filled_count(grid),
{
    lemma_count_marked_upto(grid, 9);
    assert(marks(grid).take(9) =~= marks(grid));
}

} // verus!
