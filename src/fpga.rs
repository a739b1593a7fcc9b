//! The grid of cells, its serpentine driver, and the bit-packed buffer that
//! carries signals from one cell to the next.
use crate::cell::{Cell, CellIO};
use vstd::arithmetic::div_mod::{lemma_fundamental_div_mod_converse, lemma_small_mod};
use vstd::prelude::*;

verus! {

/// Bit `k` of byte `b`.
pub open spec fn byte_bit(b: u8, k: int) -> bool {
    (b >> (k as u8)) & 1u8 == 1u8
}

proof fn lemma_write_bit(b: u8, k: u8, j: u8)
    by (bit_vector)
    requires
        k < 8,
        j < 8,
    ensures
        ((b | (1u8 << k)) >> j) & 1u8 == if j == k {
            1u8
        } else {
            (b >> j) & 1u8
        },
        ((b & !(1u8 << k)) >> j) & 1u8 == if j == k {
            0u8
        } else {
            (b >> j) & 1u8
        },
{
}

proof fn lemma_zero_byte(j: u8)
    by (bit_vector)
    requires
        j < 8,
    ensures
        (0u8 >> j) & 1u8 == 0u8,
{
}

/// Number of column bits that a buffer of `len` bytes with trim `trim`
/// holds. The final byte keeps the row scratch in its two top bits, so its
/// column bits number `trim` when `trim` is at most 6; a trim of 7 leaves the
/// final byte to the scratch alone, with 7 column bits in the byte before.
pub open spec fn column_capacity(len: nat, trim: nat) -> nat {
    if trim <= 6 {
        ((len - 1) * 8 + trim) as nat
    } else {
        ((len - 2) * 8 + 7) as nat
    }
}

/// Bytes needed for `length` column bits and the two scratch bits.
pub open spec fn pages_for(length: nat) -> nat {
    (length + 2) / 8 + if (length + 2) % 8 > 0 {
        1nat
    } else {
        0nat
    }
}

/// Signal state between grid steps: two persistent bits per grid column
/// (column 1 and column 2 of the cells in that column) and one transient
/// pair for the row lines of the current row.
#[derive(Clone, Debug)]
pub struct FpgaIO {
    io: Vec<u8>,
    trim: u8,
}

impl FpgaIO {
    /// The layout holds: at least one byte, the scratch bits clear of the
    /// column bits, bit positions that fit in `usize`, and every padding bit
    /// (between the last column bit and the scratch) clear.
    pub open spec fn wf(self) -> bool {
        &&& self.byte_len() >= 1
        &&& self.trim_value() < 8
        &&& self.trim_value() == 7 ==> self.byte_len() >= 2
        &&& self.byte_len() * 8 <= usize::MAX
        &&& forall|q: int|
            self.capacity() <= q < self.byte_len() * 8 - 2 ==> !(#[trigger] self.bit(q))
    }

    /// Bit `p` of the buffer, counting from bit 0 of the first byte.
    pub closed spec fn bit(self, p: int) -> bool {
        byte_bit(self.io@[p / 8], p % 8)
    }

    pub closed spec fn byte_len(self) -> nat {
        self.io@.len()
    }

    pub closed spec fn trim_value(self) -> nat {
        self.trim as nat
    }

    /// Number of column bits held.
    pub open spec fn capacity(self) -> nat {
        column_capacity(self.byte_len(), self.trim_value())
    }

    /// The column bits: bits `2c` and `2c + 1` belong to grid column `c`.
    pub open spec fn columns(self) -> Seq<bool> {
        Seq::new(self.capacity(), |p: int| self.bit(p))
    }

    /// The row scratch: the row 1 and row 2 signals of the current row.
    pub open spec fn scratch(self) -> (bool, bool) {
        (self.bit(self.byte_len() * 8 - 2), self.bit(self.byte_len() * 8 - 1))
    }

    /// The port vector that grid column `col` hands to a cell.
    pub open spec fn port_vector(self, col: int) -> CellIO {
        CellIO {
            column_1: self.columns()[2 * col],
            column_2: self.columns()[2 * col + 1],
            row_1: self.scratch().0,
            row_2: self.scratch().1,
        }
    }

    fn get_bit(&self, p: usize) -> (r: bool)
        requires
            self.wf(),
            p < self.byte_len() * 8,
        ensures
            r == self.bit(p as int),
    {
        ((self.io[p / 8] >> ((p % 8) as u8)) & 1u8) == 1u8
    }

    fn set_bit(&mut self, p: usize, v: bool)
        requires
            p < old(self).byte_len() * 8,
        ensures
            final(self).byte_len() == old(self).byte_len(),
            final(self).trim_value() == old(self).trim_value(),
            forall|q: int|
                0 <= q < old(self).byte_len() * 8 ==> final(self).bit(q) == if q == p {
                    v
                } else {
                    old(self).bit(q)
                },
    {
        let i = p / 8;
        let k = (p % 8) as u8;
        let b = self.io[i];
        let nb = if v {
            b | (1u8 << k)
        } else {
            b & !(1u8 << k)
        };
        self.io.set(i, nb);
        proof {
            assert forall|q: int|
                0 <= q < old(self).byte_len() * 8 implies self.bit(q) == if q == p {
                v
            } else {
                old(self).bit(q)
            } by {
                if q / 8 == i {
                    lemma_write_bit(b, k, (q % 8) as u8);
                }
            }
        }
    }

    /// A buffer for `length` column bits, all clear, with a clear scratch.
    pub fn new(length: usize) -> (r: Self)
        requires
            length + 9 <= usize::MAX,
        ensures
            r.wf(),
            r.byte_len() == pages_for(length as nat),
            r.trim_value() == length % 8,
            r.capacity() == length,
            r.columns() == Seq::new(length as nat, |p: int| false),
            r.scratch() == (false, false),
            forall|q: int| 0 <= q < r.byte_len() * 8 ==> !r.bit(q),
    {
        let capacity = length + 2;
        let pagination = capacity / 8 + if capacity % 8 > 0 {
            1
        } else {
            0
        };
        let mut io: Vec<u8> = Vec::new();
        let mut n: usize = 0;
        while n < pagination
            invariant
                n <= pagination,
                io@.len() == n,
                forall|m: int| 0 <= m < n ==> io@[m] == 0u8,
            decreases pagination - n,
        {
            io.push(0u8);
            n = n + 1;
        }
        let r = FpgaIO { io, trim: (length % 8) as u8 };
        proof {
            assert forall|q: int| 0 <= q < r.byte_len() * 8 implies !r.bit(q) by {
                lemma_zero_byte((q % 8) as u8);
            }
            assert(r.columns() == Seq::new(length as nat, |p: int| false));
        }
        r
    }

    /// Number of bytes.
    pub fn len(&self) -> (r: usize)
        ensures
            r == self.byte_len(),
    {
        self.io.len()
    }

    /// Number of column bits in the final byte.
    pub fn trim(&self) -> (r: u8)
        ensures
            r == self.trim_value(),
    {
        self.trim
    }

    /// Number of column bits held.
    pub fn capacity_bits(&self) -> (r: usize)
        requires
            self.wf(),
        ensures
            r == self.capacity(),
    {
        let len = self.io.len();
        if self.trim <= 6 {
            (len - 1) * 8 + self.trim as usize
        } else {
            (len - 2) * 8 + 7
        }
    }

    /// The port vector of grid column `col`: its two persistent bits and the
    /// row scratch.
    pub fn cell_io_at(&self, col: usize) -> (r: CellIO)
        requires
            self.wf(),
            2 * col + 2 <= self.capacity(),
        ensures
            r == self.port_vector(col as int),
    {
        let last = self.io.len() * 8;
        CellIO {
            column_1: self.get_bit(2 * col),
            column_2: self.get_bit(2 * col + 1),
            row_1: self.get_bit(last - 2),
            row_2: self.get_bit(last - 1),
        }
    }

    /// Stores a cell's result: its column signals into the bits of grid
    /// column `col`, its row signals into the scratch.
    pub fn set(&mut self, col: usize, value: CellIO)
        requires
            old(self).wf(),
            2 * col + 2 <= old(self).capacity(),
        ensures
            final(self).wf(),
            final(self).byte_len() == old(self).byte_len(),
            final(self).trim_value() == old(self).trim_value(),
            final(self).columns() == old(self).columns().update(2 * col, value.column_1).update(
                2 * col + 1,
                value.column_2,
            ),
            final(self).scratch() == (value.row_1, value.row_2),
            forall|q: int|
                0 <= q < old(self).byte_len() * 8 - 2 && q != 2 * col && q != 2 * col + 1
                    ==> final(self).bit(q) == old(self).bit(q),
    {
        let last = self.io.len() * 8;
        self.set_bit(2 * col, value.column_1);
        self.set_bit(2 * col + 1, value.column_2);
        self.set_bit(last - 2, value.row_1);
        self.set_bit(last - 1, value.row_2);
        assert(self.columns() =~= old(self).columns().update(2 * col, value.column_1).update(
            2 * col + 1,
            value.column_2,
        ));
    }

    /// Clears the row scratch.
    pub fn reset_row_io(&mut self)
        requires
            old(self).wf(),
        ensures
            final(self).wf(),
            final(self).byte_len() == old(self).byte_len(),
            final(self).trim_value() == old(self).trim_value(),
            final(self).columns() == old(self).columns(),
            final(self).scratch() == (false, false),
            forall|q: int|
                0 <= q < old(self).byte_len() * 8 - 2 ==> final(self).bit(q) == old(self).bit(q),
    {
        let last = self.io.len() * 8;
        self.set_bit(last - 2, false);
        self.set_bit(last - 1, false);
        assert(self.columns() =~= old(self).columns());
    }

    /// The column bits as booleans.
    pub fn get_value_vec(&self) -> (r: Vec<bool>)
        requires
            self.wf(),
        ensures
            r@ == self.columns(),
    {
        let n = self.capacity_bits();
        let mut r: Vec<bool> = Vec::new();
        let mut p: usize = 0;
        while p < n
            invariant
                self.wf(),
                n == self.capacity(),
                n + 2 <= self.byte_len() * 8,
                p <= n,
                r@ == self.columns().take(p as int),
            decreases n - p,
        {
            r.push(self.get_bit(p));
            assert(r@ =~= self.columns().take(p + 1));
            p = p + 1;
        }
        assert(r@ =~= self.columns());
        r
    }

    /// A buffer whose column bits are `values`, with a clear scratch.
    pub fn from_values(values: &Vec<bool>) -> (r: Self)
        requires
            values.len() + 9 <= usize::MAX,
        ensures
            r.wf(),
            r.byte_len() == pages_for(values.len() as nat),
            r.trim_value() == values.len() % 8,
            r.columns() == values@,
            r.scratch() == (false, false),
    {
        let n = values.len();
        let mut r = FpgaIO::new(n);
        let mut p: usize = 0;
        while p < n
            invariant
                r.wf(),
                n == values.len(),
                r.byte_len() == pages_for(n as nat),
                r.trim_value() == n % 8,
                r.capacity() == n,
                n + 2 <= r.byte_len() * 8,
                p <= n,
                forall|q: int| 0 <= q < p ==> r.bit(q) == values@[q],
                forall|q: int| p <= q < r.byte_len() * 8 ==> !r.bit(q),
            decreases n - p,
        {
            r.set_bit(p, values[p]);
            p = p + 1;
        }
        assert(r.columns() =~= values@);
        r
    }
}

/// True when a walk at column `col`, moving right when `forward`, is at the
/// last cell of its row.
pub open spec fn row_ends(width: int, col: int, forward: bool) -> bool {
    (forward && col == width - 1) || (!forward && col == 0)
}

/// One move of the serpentine walk over (row, column, moving right): at the
/// end of a row it goes down one row and turns; elsewhere it steps along.
pub open spec fn advance(width: int, pos: (int, int, bool)) -> (int, int, bool) {
    if row_ends(width, pos.1, pos.2) {
        (pos.0 + 1, pos.1, !pos.2)
    } else if pos.2 {
        (pos.0, pos.1 + 1, true)
    } else {
        (pos.0, pos.1 - 1, false)
    }
}

/// The walk's position after `k` moves from the top-left cell, moving right.
pub open spec fn walk(width: int, k: nat) -> (int, int, bool)
    decreases k,
{
    if k == 0 {
        (0, 0, true)
    } else {
        advance(width, walk(width, (k - 1) as nat))
    }
}

/// The signal state (column bits, row scratch) after `k` cells of a pass
/// over `cells`, a row-major grid `width` wide: each cell reads its column's
/// bits and the scratch, its result is written back, and the scratch is
/// cleared when a row ends.
pub open spec fn pass_state(
    cells: Seq<Cell>,
    width: int,
    start: (Seq<bool>, (bool, bool)),
    k: nat,
) -> (Seq<bool>, (bool, bool))
    decreases k,
{
    if k == 0 {
        start
    } else {
        let prev = pass_state(cells, width, start, (k - 1) as nat);
        let pos = walk(width, (k - 1) as nat);
        let input = CellIO {
            column_1: prev.0[2 * pos.1],
            column_2: prev.0[2 * pos.1 + 1],
            row_1: prev.1.0,
            row_2: prev.1.1,
        };
        let out = cells[pos.0 * width + pos.1].output(input);
        let columns = prev.0.update(2 * pos.1, out.column_1).update(2 * pos.1 + 1, out.column_2);
        (columns, if row_ends(width, pos.1, pos.2) {
            (false, false)
        } else {
            (out.row_1, out.row_2)
        })
    }
}

/// A row-major grid of cells.
#[derive(Clone, Debug)]
pub struct Grid {
    width: usize,
    height: usize,
    data: Vec<Cell>,
}

impl Grid {
    /// The cells fill the grid, and their count fits in `usize`.
    pub open spec fn wf(self) -> bool {
        &&& self.cells().len() == self.grid_width() * self.grid_height()
        &&& self.grid_width() * self.grid_height() <= usize::MAX
    }

    pub closed spec fn cells(self) -> Seq<Cell> {
        self.data@
    }

    pub closed spec fn grid_width(self) -> nat {
        self.width as nat
    }

    pub closed spec fn grid_height(self) -> nat {
        self.height as nat
    }

    /// A grid of blank cells.
    pub fn new(width: usize, height: usize) -> (r: Self)
        requires
            width * height <= usize::MAX,
        ensures
            r.wf(),
            r.grid_width() == width,
            r.grid_height() == height,
            r.cells().len() == width * height,
            forall|i: int| 0 <= i < width * height ==> (#[trigger] r.cells()[i]).is_blank(),
    {
        let init = Cell::default();
        let n = width * height;
        let mut data: Vec<Cell> = Vec::new();
        let mut i: usize = 0;
        while i < n
            invariant
                i <= n,
                init.is_blank(),
                data@.len() == i,
                forall|m: int| 0 <= m < i ==> (#[trigger] data@[m]).is_blank(),
            decreases n - i,
        {
            data.push(init);
            i = i + 1;
        }
        Grid { width, height, data }
    }

    /// The cell at (`row`, `col`), or none outside the grid.
    pub fn get(&self, row: usize, col: usize) -> (r: Option<&Cell>)
        requires
            self.wf(),
        ensures
            r is Some <==> (row < self.grid_height() && col < self.grid_width()),
            r matches Some(c) ==> *c == self.cells()[row * self.grid_width() + col],
    {
        if row < self.height && col < self.width {
            proof {
                lemma_cell_index(row as int, col as int, self.width as int, self.height as int);
            }
            Some(&self.data[row * self.width + col])
        } else {
            None
        }
    }

    /// The cell at (`row`, `col`) for replacing it, or none outside the grid.
    pub fn get_mut(&mut self, row: usize, col: usize) -> (r: Option<&mut Cell>)
        requires
            old(self).wf(),
        ensures
            r is Some <==> (row < old(self).grid_height() && col < old(self).grid_width()),
            r is None ==> *final(self) == *old(self),
            r matches Some(c) ==> {
                &&& *c == old(self).cells()[row * old(self).grid_width() + col]
                &&& final(self).grid_width() == old(self).grid_width()
                &&& final(self).grid_height() == old(self).grid_height()
                &&& final(self).wf()
                &&& final(self).cells() == old(self).cells().update(
                    row * old(self).grid_width() + col,
                    *final(c),
                )
            },
    {
        if row < self.height && col < self.width {
            proof {
                lemma_cell_index(row as int, col as int, self.width as int, self.height as int);
            }
            let w = self.width;
            Some(&mut self.data[row * w + col])
        } else {
            None
        }
    }

    pub fn width(&self) -> (r: usize)
        ensures
            r == self.grid_width(),
    {
        self.width
    }

    pub fn height(&self) -> (r: usize)
        ensures
            r == self.grid_height(),
    {
        self.height
    }
}

proof fn lemma_cell_index(row: int, col: int, width: int, height: int)
    requires
        0 <= row < height,
        0 <= col < width,
    ensures
        row * width + col < width * height,
        0 <= row * width,
{
    assert(row * width + col < width * height) by (nonlinear_arith)
        requires
            0 <= row < height,
            0 <= col < width,
    ;
    assert(0 <= row * width) by (nonlinear_arith)
        requires
            0 <= row,
            0 <= col < width,
    ;
}

/// The fabric: a grid of cells, evaluated by one serpentine pass.
#[derive(Clone, Debug)]
pub struct FPGA {
    grid: Grid,
}

impl FPGA {
    /// The cells fill the grid, and their count fits in `usize`.
    pub open spec fn wf(self) -> bool {
        &&& self.cells().len() == self.grid_width() * self.grid_height()
        &&& self.grid_width() * self.grid_height() <= usize::MAX
    }

    pub closed spec fn cells(self) -> Seq<Cell> {
        self.grid.cells()
    }

    pub closed spec fn grid_width(self) -> nat {
        self.grid.grid_width()
    }

    pub closed spec fn grid_height(self) -> nat {
        self.grid.grid_height()
    }

    /// The column bits and row scratch that a pass leaves, starting from
    /// those of `input`.
    pub open spec fn pass_result(self, input: FpgaIO) -> (Seq<bool>, (bool, bool)) {
        pass_state(
            self.cells(),
            self.grid_width() as int,
            (input.columns(), input.scratch()),
            self.grid_width() * self.grid_height(),
        )
    }

    /// A fabric of blank cells, `width` columns by `height` rows.
    pub fn new(width: usize, height: usize) -> (r: Self)
        requires
            width * height <= usize::MAX,
        ensures
            r.wf(),
            r.grid_width() == width,
            r.grid_height() == height,
            r.cells().len() == width * height,
            forall|i: int| 0 <= i < width * height ==> (#[trigger] r.cells()[i]).is_blank(),
    {
        FPGA { grid: Grid::new(width, height) }
    }

    /// A fabric over the cells of `grid`.
    pub fn from_grid(grid: Grid) -> (r: Self)
        requires
            grid.wf(),
        ensures
            r.wf(),
            r.cells() == grid.cells(),
            r.grid_width() == grid.grid_width(),
            r.grid_height() == grid.grid_height(),
    {
        FPGA { grid }
    }

    /// The cell at (`row`, `col`), or none outside the grid.
    pub fn get_cell(&self, row: usize, col: usize) -> (r: Option<&Cell>)
        requires
            self.wf(),
        ensures
            r is Some <==> (row < self.grid_height() && col < self.grid_width()),
            r matches Some(c) ==> *c == self.cells()[row * self.grid_width() + col],
    {
        self.grid.get(row, col)
    }

    /// The cell at (`row`, `col`) for replacing it, or none outside the grid.
    pub fn get_mut(&mut self, row: usize, col: usize) -> (r: Option<&mut Cell>)
        requires
            old(self).wf(),
        ensures
            r is Some <==> (row < old(self).grid_height() && col < old(self).grid_width()),
            r is None ==> *final(self) == *old(self),
            r matches Some(c) ==> {
                &&& *c == old(self).cells()[row * old(self).grid_width() + col]
                &&& final(self).grid_width() == old(self).grid_width()
                &&& final(self).grid_height() == old(self).grid_height()
                &&& final(self).wf()
                &&& final(self).cells() == old(self).cells().update(
                    row * old(self).grid_width() + col,
                    *final(c),
                )
            },
    {
        self.grid.get_mut(row, col)
    }

    /// Runs one pass over the grid: the cells are visited row by row, left
    /// to right on even rows and right to left on odd ones. Each cell reads
    /// its column's two bits and the row scratch from the buffer and writes
    /// its result back; the scratch is cleared as each row ends. Fails, and
    /// evaluates nothing, when the buffer does not hold exactly two column
    /// bits per grid column.
    pub fn eval(&self, input: FpgaIO) -> (r: Result<FpgaIO, &'static str>)
        requires
            self.wf(),
            input.wf(),
        ensures
            r is Err <==> input.capacity() != 2 * self.grid_width(),
            r matches Err(e) ==> e == "FpgaIO size does not match grid input requirements",
            r matches Ok(b) ==> {
                &&& b.wf()
                &&& b.byte_len() == input.byte_len()
                &&& b.trim_value() == input.trim_value()
                &&& (b.columns(), b.scratch()) == self.pass_result(input)
            },
    {
        let mut buf = input;
        let w = self.grid.width;
        let h = self.grid.height;
        let cap = buf.capacity_bits();
        if cap % 2 != 0 || cap / 2 != w {
            return Err("FpgaIO size does not match grid input requirements");
        }
        let ghost cells = self.cells();
        let ghost start = (input.columns(), input.scratch());
        let n = w * h;
        let mut row: usize = 0;
        let mut col: usize = 0;
        let mut forward = true;
        let mut k: usize = 0;
        while k < n
            invariant
                self.wf(),
                cells == self.cells(),
                w == self.grid_width(),
                h == self.grid_height(),
                n == w * h,
                buf.wf(),
                buf.capacity() == 2 * w,
                buf.byte_len() == input.byte_len(),
                buf.trim_value() == input.trim_value(),
                k <= n,
                walk(w as int, k as nat) == (row as int, col as int, forward),
                w > 0 ==> col < w,
                row * w + (if forward {
                    col as int
                } else {
                    w - 1 - col
                }) == k,
                (buf.columns(), buf.scratch()) == pass_state(cells, w as int, start, k as nat),
            decreases n - k,
        {
            assert(w > 0) by (nonlinear_arith)
                requires
                    k < n,
                    n == w * h,
            ;
            assert(row < h) by (nonlinear_arith)
                requires
                    row * w <= k,
                    k < w * h,
                    w > 0,
            ;
            proof {
                lemma_cell_index(row as int, col as int, w as int, h as int);
            }
            let input_io = buf.cell_io_at(col);
            let out = self.grid.data[row * w + col].eval_cell(input_io);
            buf.set(col, out);
            if (forward && col == w - 1) || (!forward && col == 0) {
                assert((row + 1) * w == row * w + w) by (nonlinear_arith);
                forward = !forward;
                row = row + 1;
                buf.reset_row_io();
            } else if forward {
                col = col + 1;
            } else {
                col = col - 1;
            }
            k = k + 1;
        }
        Ok(buf)
    }

    pub fn width(&self) -> (r: usize)
        ensures
            r == self.grid_width(),
    {
        self.grid.width()
    }

    pub fn height(&self) -> (r: usize)
        ensures
            r == self.grid_height(),
    {
        self.grid.height()
    }
}

proof fn lemma_walk_invariant(width: int, k: nat)
    requires
        width > 0,
    ensures
        0 <= walk(width, k).0,
        0 <= walk(width, k).1 < width,
        walk(width, k).2 == (walk(width, k).0 % 2 == 0),
        walk(width, k).0 * width + (if walk(width, k).2 {
            walk(width, k).1
        } else {
            width - 1 - walk(width, k).1
        }) == k,
    decreases k,
{
    if k > 0 {
        lemma_walk_invariant(width, (k - 1) as nat);
        let (row, col, forward) = walk(width, (k - 1) as nat);
        assert((row + 1) * width == row * width + width) by (nonlinear_arith);
    }
}

/// Where the serpentine walk over a grid `width` wide stands after `k`
/// moves: on row `(k as int) / width`, moving right on even rows and left on odd
/// ones, `(k as int) % width` cells from where the row began. Its direction changes
/// exactly once per row, on the move that leaves the row's last cell.
pub proof fn lemma_serpentine(width: int, k: nat)
    requires
        width > 0,
    ensures
        walk(width, k).0 == (k as int) / width,
        walk(width, k).2 == (((k as int) / width) % 2 == 0),
        walk(width, k).1 == if walk(width, k).2 {
            (k as int) % width
        } else {
            width - 1 - (k as int) % width
        },
        row_ends(width, walk(width, k).1, walk(width, k).2) <==> (k as int) % width == width - 1,
        walk(width, k + 1).2 != walk(width, k).2 <==> (k as int) % width == width - 1,
        walk(width, k + 1).0 == walk(width, k).0 + if (k as int) % width == width - 1 {
            1int
        } else {
            0int
        },
{
    lemma_walk_invariant(width, k);
    let (row, col, forward) = walk(width, k);
    let s = if forward {
        col
    } else {
        width - 1 - col
    };
    lemma_fundamental_div_mod_converse(k as int, width, row, s);
    assert(walk(width, k + 1) == advance(width, walk(width, k)));
}

/// The row scratch is clear right after each turn of the walk: after the
/// step that ends a row, the row signals do not carry into the next row.
pub proof fn lemma_scratch_clear_after_turn(
    cells: Seq<Cell>,
    width: int,
    start: (Seq<bool>, (bool, bool)),
    k: nat,
)
    requires
        width > 0,
        (k as int) % width == width - 1,
    ensures
        pass_state(cells, width, start, k + 1).1 == (false, false),
        walk(width, k + 1).2 != walk(width, k).2,
{
    lemma_serpentine(width, k);
    assert(pass_state(cells, width, start, k + 1).1 == (false, false));
}

/// On a grid one row high and `width` wide, the walk goes left to right
/// along the row and turns only after its last cell.
pub proof fn lemma_single_row_walk(width: int, k: nat)
    requires
        width > 0,
        k < width,
    ensures
        walk(width, k) == (0int, k as int, true),
        row_ends(width, k as int, true) <==> k == width - 1,
{
    lemma_serpentine(width, k);
    lemma_small_mod(k, width as nat);
    lemma_fundamental_div_mod_converse(k as int, width, 0, k as int);
}

/// On a grid one row high, each cell hands its row signals to the next
/// one, and the scratch is clear once the row is done.
pub proof fn lemma_single_row_pass(
    cells: Seq<Cell>,
    width: int,
    start: (Seq<bool>, (bool, bool)),
    k: nat,
)
    requires
        width > 0,
        k < width,
    ensures
        ({
            let prev = pass_state(cells, width, start, k);
            let input = CellIO {
                column_1: prev.0[2 * (k as int)],
                column_2: prev.0[2 * (k as int) + 1],
                row_1: prev.1.0,
                row_2: prev.1.1,
            };
            let out = cells[k as int].output(input);
            let next = pass_state(cells, width, start, k + 1);
            &&& next.0 == prev.0.update(2 * (k as int), out.column_1).update(2 * (k as int) + 1, out.column_2)
            &&& next.1 == if k == width - 1 {
                (false, false)
            } else {
                (out.row_1, out.row_2)
            }
        }),
{
    lemma_single_row_walk(width, k);
    assert(pass_state(cells, width, start, k + 1) == {
        let prev = pass_state(cells, width, start, k);
        let pos = walk(width, k);
        let input = CellIO {
            column_1: prev.0[2 * pos.1],
            column_2: prev.0[2 * pos.1 + 1],
            row_1: prev.1.0,
            row_2: prev.1.1,
        };
        let out = cells[pos.0 * width + pos.1].output(input);
        let columns = prev.0.update(2 * pos.1, out.column_1).update(2 * pos.1 + 1, out.column_2);
        (columns, if row_ends(width, pos.1, pos.2) {
            (false, false)
        } else {
            (out.row_1, out.row_2)
        })
    });
}

/// On a grid one cell wide, every cell is a whole row: the walk turns after
/// each cell, and each cell starts with a clear row scratch and hands on
/// only its column signals.
pub proof fn lemma_single_column_pass(cells: Seq<Cell>, start: (Seq<bool>, (bool, bool)), k: nat)
    ensures
        walk(1, k) == (k as int, 0int, k % 2 == 0),
        k >= 1 ==> pass_state(cells, 1, start, k).1 == (false, false),
        ({
            let prev = pass_state(cells, 1, start, k);
            let input = CellIO {
                column_1: prev.0[0],
                column_2: prev.0[1],
                row_1: prev.1.0,
                row_2: prev.1.1,
            };
            let out = cells[k as int].output(input);
            let next = pass_state(cells, 1, start, k + 1);
            &&& next.0 == prev.0.update(0, out.column_1).update(1, out.column_2)
            &&& next.1 == (false, false)
        }),
    decreases k,
{
    lemma_serpentine(1, k);
    assert((k as int) / 1 == k && (k as int) % 1 == 0);
    if k >= 1 {
        lemma_single_column_pass(cells, start, (k - 1) as nat);
    }
}

} // verus!
