//! Splitting an image into small cells that the render workers take one by
//! one, and the bookkeeping of how far rendering has come.

use vstd::prelude::*;
use std::collections::VecDeque;
use rand::seq::SliceRandom;

verus! {

/// Edge length, in pixels, of the square cells an image is split into.
pub const BLOCK_SIZE: i32 = 2;

/// A rectangle of pixels, both bounds inclusive.
#[derive(Clone, Copy, Debug, PartialEq, Eq, Structural)]
pub struct CellRange {
    pub x0: i32,
    pub x1: i32,
    pub y0: i32,
    pub y1: i32,
}

impl CellRange {
    /// The cell holding only the pixel at the origin.
    pub fn new() -> (c: CellRange)
        ensures
            c == (CellRange { x0: 0, x1: 0, y0: 0, y1: 0 }),
    {
        CellRange { x0: 0, x1: 0, y0: 0, y1: 0 }
    }
}

/// Number of cells along an edge of `n` pixels.
pub open spec fn blocks(n: int) -> int {
    if n <= 0 {
        0
    } else {
        (n + BLOCK_SIZE - 1) / (BLOCK_SIZE as int)
    }
}

/// Smaller of two integers.
pub open spec fn min_int(a: int, b: int) -> int {
    if a <= b {
        a
    } else {
        b
    }
}

/// The cell in block column `i` and block row `j` of a `w` x `h` image:
/// it is cut off at the image's last row and column.
pub open spec fn tile(w: int, h: int, i: int, j: int) -> CellRange {
    CellRange {
        x0: (i * BLOCK_SIZE) as i32,
        x1: min_int(i * BLOCK_SIZE + BLOCK_SIZE - 1, w - 1) as i32,
        y0: (j * BLOCK_SIZE) as i32,
        y1: min_int(j * BLOCK_SIZE + BLOCK_SIZE - 1, h - 1) as i32,
    }
}

/// The cells of block column `i`, top to bottom.
pub open spec fn tile_column(w: int, h: int, i: int) -> Seq<CellRange> {
    Seq::new(blocks(h) as nat, |j: int| tile(w, h, i, j))
}

/// The cells of the first `n` block columns, column by column.
pub open spec fn tiles_upto(w: int, h: int, n: nat) -> Seq<CellRange>
    decreases n,
{
    if n == 0 {
        Seq::empty()
    } else {
        tiles_upto(w, h, (n - 1) as nat) + tile_column(w, h, n - 1)
    }
}

/// All cells of a `w` x `h` image, column by column and top to bottom in
/// each column.
pub open spec fn tiling(w: int, h: int) -> Seq<CellRange> {
    tiles_upto(w, h, blocks(w) as nat)
}

/// Whether the pixel (`px`, `py`) lies in the cell.
pub open spec fn cell_contains(c: CellRange, px: int, py: int) -> bool {
    c.x0 <= px <= c.x1 && c.y0 <= py <= c.y1
}

/// Number of cells in `cells` that contain the pixel (`px`, `py`).
pub open spec fn count_containing(cells: Seq<CellRange>, px: int, py: int) -> nat
    decreases cells.len(),
{
    if cells.len() == 0 {
        0
    } else {
        count_containing(cells.drop_last(), px, py) + if cell_contains(cells.last(), px, py) {
            1nat
        } else {
            0nat
        }
    }
}

/// Builds the cells of a `width` x `height` image in the order `tiling` gives.
pub fn build_cells(width: i32, height: i32) -> (cells: VecDeque<CellRange>)
    requires
        width < i32::MAX,
        height < i32::MAX,
    ensures
        cells@ == tiling(width as int, height as int),
{
    let mut cells: VecDeque<CellRange> = VecDeque::new();
    let ghost w = width as int;
    let ghost h = height as int;
    let ghost mut i: int = 0;
    let mut x: i32 = 0;
    while x < width
        invariant
            w == width,
            h == height,
            width < i32::MAX,
            height < i32::MAX,
            0 <= i,
            x == width || x == i * BLOCK_SIZE,
            x == width ==> i == blocks(w),
            x < width ==> i < blocks(w),
            0 <= x <= width || width <= 0,
            width <= 0 ==> x == 0 && i == 0,
            cells@ == tiles_upto(w, h, i as nat),
        decreases width - x,
    {
        let mut x1 = x + BLOCK_SIZE - 1;
        if x1 >= width {
            x1 = width - 1;
        }
        let mut y: i32 = 0;
        let ghost mut j: int = 0;
        while y < height
            invariant
                w == width,
                h == height,
                width < i32::MAX,
                height < i32::MAX,
                0 <= i < blocks(w),
                x == i * BLOCK_SIZE,
                x1 == min_int(i * BLOCK_SIZE + BLOCK_SIZE - 1, w - 1),
                0 <= j,
                y == height || y == j * BLOCK_SIZE,
                y == height ==> j == blocks(h),
                y < height ==> j < blocks(h),
                0 <= y <= height || height <= 0,
                height <= 0 ==> y == 0 && j == 0,
                cells@ == tiles_upto(w, h, i as nat) + tile_column(w, h, i).take(j),
            decreases height - y,
        {
            let mut y1 = y + BLOCK_SIZE - 1;
            if y1 >= height {
                y1 = height - 1;
            }
            let cell = CellRange { x0: x, x1: x1, y0: y, y1: y1 };
            proof {
                assert(cell == tile(w, h, i, j));
                assert(tile_column(w, h, i).take(j + 1) =~= tile_column(w, h, i).take(j).push(cell));
            }
            cells.push_back(cell);
            if y1 == height - 1 {
                y = height;
            } else {
                y += BLOCK_SIZE;
            }
            proof {
                j = j + 1;
            }
        }
        proof {
            if height <= 0 {
                assert(blocks(h) == 0);
                assert(j == 0);
            }
            assert(tile_column(w, h, i).take(j) =~= tile_column(w, h, i));
            assert(tiles_upto(w, h, (i + 1) as nat) == tiles_upto(w, h, i as nat) + tile_column(w, h, i));
        }
        if x1 == width - 1 {
            x = width;
        } else {
            x += BLOCK_SIZE;
        }
        proof {
            i = i + 1;
        }
    }
    proof {
        if width <= 0 {
            assert(i == 0);
            assert(blocks(w) == 0);
        }
    }
    cells
}

/// Counting over two joined sequences adds up.
pub proof fn lemma_count_concat(a: Seq<CellRange>, b: Seq<CellRange>, px: int, py: int)
    ensures
        count_containing(a + b, px, py) == count_containing(a, px, py) + count_containing(b, px, py),
    decreases b.len(),
{
    if b.len() == 0 {
        assert(a + b =~= a);
    } else {
        assert((a + b).drop_last() =~= a + b.drop_last());
        assert((a + b).last() == b.last());
        lemma_count_concat(a, b.drop_last(), px, py);
    }
}

proof fn lemma_count_column_prefix(w: i32, h: i32, i: int, px: int, py: int, m: int)
    requires
        w < i32::MAX,
        h < i32::MAX,
        0 <= i < blocks(w as int),
        0 <= m <= blocks(h as int),
    ensures
        count_containing(tile_column(w as int, h as int, i).take(m), px, py) == if i * BLOCK_SIZE
            <= px <= min_int(i * BLOCK_SIZE + BLOCK_SIZE - 1, w - 1) && 0 <= py < min_int(
            m * BLOCK_SIZE,
            h as int,
        ) {
            1nat
        } else {
            0nat
        },
    decreases m,
{
    let col = tile_column(w as int, h as int, i);
    if m > 0 {
        assert(col.take(m).drop_last() =~= col.take(m - 1));
        assert(col.take(m).last() == tile(w as int, h as int, i, m - 1));
        lemma_count_column_prefix(w, h, i, px, py, m - 1);
    } else {
        assert(col.take(m) =~= Seq::<CellRange>::empty());
    }
}

proof fn lemma_count_tiles_upto(w: i32, h: i32, px: int, py: int, n: int)
    requires
        w < i32::MAX,
        h < i32::MAX,
        0 <= n <= blocks(w as int),
    ensures
        count_containing(tiles_upto(w as int, h as int, n as nat), px, py) == if 0 <= px
            < min_int(n * BLOCK_SIZE, w as int) && 0 <= py < h {
            1nat
        } else {
            0nat
        },
    decreases n,
{
    if n > 0 {
        let col = tile_column(w as int, h as int, n - 1);
        lemma_count_tiles_upto(w, h, px, py, n - 1);
        lemma_count_concat(tiles_upto(w as int, h as int, (n - 1) as nat), col, px, py);
        lemma_count_column_prefix(w, h, n - 1, px, py, blocks(h as int));
        assert(col.take(blocks(h as int)) =~= col);
    }
}

/// Every pixel of a `w` x `h` image lies in exactly one cell of its tiling,
/// and no pixel outside the image lies in any.
pub proof fn lemma_tiling_covers_each_pixel_once(w: i32, h: i32, px: int, py: int)
    requires
        w < i32::MAX,
        h < i32::MAX,
    ensures
        count_containing(tiling(w as int, h as int), px, py) == if 0 <= px < w && 0 <= py < h {
            1nat
        } else {
            0nat
        },
{
    lemma_count_tiles_upto(w, h, px, py, blocks(w as int));
}

/// Removing one cell from a sequence lowers the count by one exactly when
/// that cell contains the pixel.
pub proof fn lemma_count_remove(s: Seq<CellRange>, k: int, px: int, py: int)
    requires
        0 <= k < s.len(),
    ensures
        count_containing(s, px, py) == count_containing(s.remove(k), px, py) + if cell_contains(
            s[k],
            px,
            py,
        ) {
            1nat
        } else {
            0nat
        },
{
    let a = s.subrange(0, k);
    let b = s.subrange(k + 1, s.len() as int);
    assert(s =~= a + seq![s[k]] + b);
    assert(s.remove(k) =~= a + b);
    let one = seq![s[k]];
    lemma_count_concat(a + one, b, px, py);
    lemma_count_concat(a, one, px, py);
    lemma_count_concat(a, b, px, py);
    assert(one.drop_last() =~= Seq::<CellRange>::empty());
    assert(one.last() == s[k]);
    assert(count_containing(Seq::<CellRange>::empty(), px, py) == 0);
    assert(count_containing(one, px, py) == if cell_contains(s[k], px, py) { 1nat } else { 0nat });
}

/// Two sequences holding the same cells, in any order, count alike.
pub proof fn lemma_count_permutation(s1: Seq<CellRange>, s2: Seq<CellRange>, px: int, py: int)
    requires
        s1.to_multiset() == s2.to_multiset(),
    ensures
        count_containing(s1, px, py) == count_containing(s2, px, py),
    decreases s1.len(),
{
    s1.to_multiset_ensures();
    s2.to_multiset_ensures();
    if s1.len() == 0 {
        assert(s2.len() == 0);
    } else {
        let x = s1.last();
        assert(s1.drop_last().push(x) =~= s1);
        s1.drop_last().to_multiset_ensures();
        assert(s2.to_multiset().count(x) > 0);
        assert(s2.contains(x));
        let k = choose|k: int| 0 <= k < s2.len() && s2[k] == x;
        assert(s2.remove(k).to_multiset() =~= s2.to_multiset().remove(x));
        assert(s1.drop_last().to_multiset() =~= s1.to_multiset().remove(x));
        lemma_count_permutation(s1.drop_last(), s2.remove(k), px, py);
        lemma_count_remove(s2, k, px, py);
    }
}

/// Puts the cells in a random order, with `rand::seq::SliceRandom::shuffle`
/// and the thread-local generator of `rand::thread_rng`. The contract claims
/// only that the same cells come out, each as often as it went in: which
/// order comes out rests on chance.
#[verifier::external_body]
fn shuffle_cells(cells: &mut VecDeque<CellRange>)
    ensures
        final(cells)@.to_multiset() == old(cells)@.to_multiset(),
{
    cells.make_contiguous().shuffle(&mut rand::thread_rng());
}

/// The work of one rendering pass: the image size, the cells that no worker
/// has taken yet, and how many pixels have been rendered.
pub struct RenderProgress {
    pub width: i32,
    pub height: i32,
    pub running: bool,
    pub cells: VecDeque<CellRange>,
    pub pixels_rendered: u64,
    /// Milliseconds from the start of the pass to its end, 0 until the end
    /// has been seen.
    pub done_time_ms: u128,
}

impl RenderProgress {
    /// Nothing queued and nothing rendered yet.
    pub fn new(width: i32, height: i32) -> (p: RenderProgress)
        ensures
            p.width == width,
            p.height == height,
            !p.running,
            p.cells@.len() == 0,
            p.pixels_rendered == 0,
            p.done_time_ms == 0,
    {
        RenderProgress {
            width,
            height,
            running: false,
            cells: VecDeque::new(),
            pixels_rendered: 0,
            done_time_ms: 0,
        }
    }

    /// Changes the image size for the next pass; nothing else changes.
    pub fn update_resolution(&mut self, width: i32, height: i32)
        ensures
            final(self).width == width,
            final(self).height == height,
            final(self).running == old(self).running,
            final(self).cells == old(self).cells,
            final(self).pixels_rendered == old(self).pixels_rendered,
            final(self).done_time_ms == old(self).done_time_ms,
    {
        self.width = width;
        self.height = height;
    }

    /// Starts a pass: running, no pixel counted and no end time yet, and the
    /// queue holds every cell of the image's tiling once, in a random order.
    pub fn start(&mut self)
        requires
            old(self).width < i32::MAX,
            old(self).height < i32::MAX,
        ensures
            final(self).width == old(self).width,
            final(self).height == old(self).height,
            final(self).running,
            final(self).pixels_rendered == 0,
            final(self).done_time_ms == 0,
            final(self).cells@.to_multiset() == tiling(
                old(self).width as int,
                old(self).height as int,
            ).to_multiset(),
    {
        self.done_time_ms = 0;
        self.pixels_rendered = 0;
        self.running = true;
        let mut cells = build_cells(self.width, self.height);
        shuffle_cells(&mut cells);
        self.cells = cells;
    }

    /// Ends the pass: workers stop taking cells. Gives whether it was
    /// running; stopping a stopped pass changes nothing.
    pub fn stop(&mut self) -> (was_running: bool)
        ensures
            was_running == old(self).running,
            !final(self).running,
            final(self).width == old(self).width,
            final(self).height == old(self).height,
            final(self).cells == old(self).cells,
            final(self).pixels_rendered == old(self).pixels_rendered,
            final(self).done_time_ms == old(self).done_time_ms,
    {
        let was_running = self.running;
        self.running = false;
        was_running
    }

    /// Whether a pass is running.
    pub fn is_running(&self) -> (b: bool)
        ensures
            b == self.running,
    {
        self.running
    }

    /// Takes the next cell off the front of the queue, or `None` when the
    /// queue is empty.
    pub fn next_cell(&mut self) -> (cell: Option<CellRange>)
        ensures
            final(self).width == old(self).width,
            final(self).height == old(self).height,
            final(self).running == old(self).running,
            final(self).pixels_rendered == old(self).pixels_rendered,
            final(self).done_time_ms == old(self).done_time_ms,
            old(self).cells@.len() == 0 ==> cell is None && final(self).cells@ == old(self).cells@,
            old(self).cells@.len() > 0 ==> cell == Some(old(self).cells@[0])
                && final(self).cells@ == old(self).cells@.drop_first(),
    {
        self.cells.pop_front()
    }

    /// Counts one more rendered pixel.
    pub fn pixel_rendered(&mut self)
        requires
            old(self).pixels_rendered < u64::MAX,
        ensures
            final(self).pixels_rendered == old(self).pixels_rendered + 1,
            final(self).width == old(self).width,
            final(self).height == old(self).height,
            final(self).running == old(self).running,
            final(self).cells == old(self).cells,
            final(self).done_time_ms == old(self).done_time_ms,
    {
        self.pixels_rendered = self.pixels_rendered + 1;
    }

    /// Whether some cell still waits for a worker.
    pub fn has_cells_left(&self) -> (b: bool)
        ensures
            b == (self.cells@.len() > 0),
    {
        self.cells.len() > 0
    }

    /// How many pixels have been rendered in this pass.
    pub fn get_rendered_pixels(&self) -> (n: u64)
        ensures
            n == self.pixels_rendered,
    {
        self.pixels_rendered
    }

    /// Whether as many pixels have been rendered as the image has.
    pub fn is_done(&self) -> (b: bool)
        requires
            (self.width as u64) * (self.height as u64) <= u64::MAX,
        ensures
            b == (self.pixels_rendered == (self.width as u64) * (self.height as u64)),
    {
        self.pixels_rendered == self.width as u64 * self.height as u64
    }

    /// The rendering time of the pass in milliseconds, given the time
    /// elapsed since its start: once the pass is seen done, that time is
    /// kept and given from then on.
    pub fn check_and_get_elapsed_time(&mut self, elapsed_ms: u128) -> (t: u128)
        requires
            old(self).done_time_ms == 0 ==> (old(self).width as u64) * (old(self).height as u64)
                <= u64::MAX,
        ensures
            old(self).done_time_ms > 0 ==> t == old(self).done_time_ms && final(self).done_time_ms
                == old(self).done_time_ms,
            old(self).done_time_ms == 0 ==> t == elapsed_ms,
            old(self).done_time_ms == 0 && old(self).pixels_rendered == (old(self).width as u64) * (
            old(self).height as u64) ==> final(self).done_time_ms == elapsed_ms,
            old(self).done_time_ms == 0 && old(self).pixels_rendered != (old(self).width as u64) * (
            old(self).height as u64) ==> final(self).done_time_ms == 0,
            final(self).width == old(self).width,
            final(self).height == old(self).height,
            final(self).running == old(self).running,
            final(self).cells == old(self).cells,
            final(self).pixels_rendered == old(self).pixels_rendered,
    {
        if self.done_time_ms > 0 {
            return self.done_time_ms;
        }
        if self.is_done() {
            self.done_time_ms = elapsed_ms;
        }
        elapsed_ms
    }
}

/// Whatever order the cells of a pass come in, every pixel of the image is
/// in exactly one of them, and no pixel outside the image is in any.
pub proof fn lemma_pass_covers_each_pixel_once(cells: Seq<CellRange>, w: i32, h: i32, px: int, py: int)
    requires
        w < i32::MAX,
        h < i32::MAX,
        cells.to_multiset() == tiling(w as int, h as int).to_multiset(),
    ensures
        count_containing(cells, px, py) == if 0 <= px < w && 0 <= py < h {
            1nat
        } else {
            0nat
        },
{
    lemma_count_permutation(cells, tiling(w as int, h as int), px, py);
    lemma_tiling_covers_each_pixel_once(w, h, px, py);
}

/// The pixels of row `y` from column `x0` on, `n` of them, left to right.
pub open spec fn row_pixels(x0: int, y: int, n: nat) -> Seq<(i32, i32)> {
    Seq::new(n, |k: int| ((x0 + k) as i32, y as i32))
}

/// Number of columns of a cell (0 for an empty one).
pub open spec fn cell_width(c: CellRange) -> nat {
    if c.x1 >= c.x0 {
        (c.x1 - c.x0 + 1) as nat
    } else {
        0
    }
}

/// Number of rows of a cell (0 for an empty one).
pub open spec fn cell_height(c: CellRange) -> nat {
    if c.y1 >= c.y0 {
        (c.y1 - c.y0 + 1) as nat
    } else {
        0
    }
}

/// The pixels of the first `m` rows of a cell, row by row.
pub open spec fn rows_upto(c: CellRange, m: nat) -> Seq<(i32, i32)>
    decreases m,
{
    if m == 0 {
        Seq::empty()
    } else {
        rows_upto(c, (m - 1) as nat) + row_pixels(c.x0 as int, c.y0 + m - 1, cell_width(c))
    }
}

/// The pixels a worker renders for a cell: row by row from the top, each
/// row left to right.
pub open spec fn cell_pixels_spec(c: CellRange) -> Seq<(i32, i32)> {
    rows_upto(c, cell_height(c))
}

/// Lists the pixels of a cell in the order a worker renders them.
pub fn cell_pixels(c: CellRange) -> (pixels: Vec<(i32, i32)>)
    requires
        c.x1 < i32::MAX,
        c.y1 < i32::MAX,
    ensures
        pixels@ == cell_pixels_spec(c),
{
    let mut pixels: Vec<(i32, i32)> = Vec::new();
    let mut y: i32 = c.y0;
    while y < c.y1 + 1
        invariant
            c.x1 < i32::MAX,
            c.y1 < i32::MAX,
            c.y0 <= y,
            y <= c.y1 + 1 || y == c.y0,
            pixels@ == rows_upto(c, (y - c.y0) as nat),
        decreases c.y1 + 1 - y,
    {
        let mut x: i32 = c.x0;
        let ghost before = pixels@;
        while x < c.x1 + 1
            invariant
                c.x1 < i32::MAX,
                c.x0 <= x,
                x <= c.x1 + 1 || x == c.x0,
                pixels@ == before + row_pixels(c.x0 as int, y as int, (x - c.x0) as nat),
            decreases c.x1 + 1 - x,
        {
            pixels.push((x, y));
            proof {
                assert(row_pixels(c.x0 as int, y as int, (x + 1 - c.x0) as nat) =~= row_pixels(
                    c.x0 as int,
                    y as int,
                    (x - c.x0) as nat,
                ).push((x, y)));
            }
            x += 1;
        }
        proof {
            assert(cell_width(c) == (x - c.x0) as nat);
            assert(rows_upto(c, (y + 1 - c.y0) as nat) == rows_upto(c, (y - c.y0) as nat)
                + row_pixels(c.x0 as int, y as int, cell_width(c)));
        }
        y += 1;
    }
    proof {
        assert(cell_height(c) == (y - c.y0) as nat);
    }
    pixels
}

proof fn lemma_rows_upto(c: CellRange, m: nat, px: int, py: int)
    requires
        i32::MIN <= px <= i32::MAX,
        i32::MIN <= py <= i32::MAX,
        c.y0 + m <= i32::MAX + 1,
        c.x0 + cell_width(c) <= i32::MAX + 1,
    ensures
        rows_upto(c, m).contains((px as i32, py as i32)) <==> (c.x0 <= px < c.x0 + cell_width(c)
            && c.y0 <= py < c.y0 + m),
        rows_upto(c, m).no_duplicates(),
        forall|k: int| 0 <= k < rows_upto(c, m).len() ==> c.y0 <= (#[trigger] rows_upto(c, m)[k]).1 < c.y0 + m,
    decreases m,
{
    if m > 0 {
        lemma_rows_upto(c, (m - 1) as nat, px, py);
        let prev = rows_upto(c, (m - 1) as nat);
        let row = row_pixels(c.x0 as int, c.y0 + m - 1, cell_width(c));
        let all = prev + row;
        assert(rows_upto(c, m) == all);
        if row.contains((px as i32, py as i32)) {
            let k = choose|k: int| 0 <= k < row.len() && row[k] == (px as i32, py as i32);
            assert(all[prev.len() + k] == (px as i32, py as i32));
        }
        if prev.contains((px as i32, py as i32)) {
            let k = choose|k: int| 0 <= k < prev.len() && prev[k] == (px as i32, py as i32);
            assert(all[k] == (px as i32, py as i32));
        }
        if c.x0 <= px < c.x0 + cell_width(c) && py == c.y0 + m - 1 {
            assert(row[px - c.x0] == (px as i32, py as i32));
            assert(all[prev.len() + (px - c.x0)] == (px as i32, py as i32));
        }
        if all.contains((px as i32, py as i32)) {
            let k = choose|k: int| 0 <= k < all.len() && all[k] == (px as i32, py as i32);
            if k >= prev.len() {
                assert(row[k - prev.len()] == (px as i32, py as i32));
            } else {
                assert(prev[k] == (px as i32, py as i32));
            }
        }
        assert forall|i: int, j: int| 0 <= i < all.len() && 0 <= j < all.len() && i != j implies all[i]
            != all[j] by {
            if i < prev.len() && j < prev.len() {
                assert(prev[i] != prev[j]);
            } else if i >= prev.len() && j >= prev.len() {
                assert(row[i - prev.len()].0 != row[j - prev.len()].0);
            } else if i < prev.len() {
                assert(prev[i].1 < c.y0 + m - 1);
            } else {
                assert(prev[j].1 < c.y0 + m - 1);
            }
        }
        assert forall|k: int| 0 <= k < all.len() implies c.y0 <= (#[trigger] all[k]).1 < c.y0 + m by {
            if k < prev.len() {
                assert(prev[k].1 < c.y0 + m - 1);
            }
        }
    }
}

/// A worker renders each pixel of its cell once and nothing else.
pub proof fn lemma_cell_pixels_exact(c: CellRange, px: i32, py: i32)
    requires
        c.x1 < i32::MAX,
        c.y1 < i32::MAX,
    ensures
        cell_pixels_spec(c).contains((px, py)) <==> cell_contains(c, px as int, py as int),
        cell_pixels_spec(c).no_duplicates(),
{
    lemma_rows_upto(c, cell_height(c), px as int, py as int);
}

/// Every pixel a pass renders, cell after cell, each cell in worker order.
pub open spec fn pass_pixels(cells: Seq<CellRange>) -> Seq<(i32, i32)>
    decreases cells.len(),
{
    if cells.len() == 0 {
        Seq::empty()
    } else {
        pass_pixels(cells.drop_last()) + cell_pixels_spec(cells.last())
    }
}

/// Whether a cell's last column and row lie before the largest `i32`.
pub open spec fn cell_bounded(c: CellRange) -> bool {
    c.x1 < i32::MAX && c.y1 < i32::MAX
}

proof fn lemma_tiles_bounded(w: i32, h: i32, n: nat)
    requires
        w < i32::MAX,
        h < i32::MAX,
        n <= blocks(w as int),
    ensures
        forall|k: int|
            0 <= k < tiles_upto(w as int, h as int, n).len() ==> cell_bounded(
                #[trigger] tiles_upto(w as int, h as int, n)[k],
            ),
    decreases n,
{
    if n > 0 {
        lemma_tiles_bounded(w, h, (n - 1) as nat);
        let prev = tiles_upto(w as int, h as int, (n - 1) as nat);
        let col = tile_column(w as int, h as int, n - 1);
        assert forall|j: int| 0 <= j < col.len() implies cell_bounded(#[trigger] col[j]) by {
            let vx = min_int((n - 1) * BLOCK_SIZE + BLOCK_SIZE - 1, w - 1);
            let vy = min_int(j * BLOCK_SIZE + BLOCK_SIZE - 1, h - 1);
            assert(-1 <= vx <= w - 1);
            assert(-1 <= vy <= h - 1);
        }
        let all = tiles_upto(w as int, h as int, n);
        assert(all == prev + col);
        assert forall|k: int| 0 <= k < all.len() implies cell_bounded(#[trigger] all[k]) by {
            if k < prev.len() {
                assert(all[k] == prev[k]);
            } else {
                assert(all[k] == col[k - prev.len()]);
            }
        }
    }
}

proof fn lemma_cell_pixel_count(c: CellRange, px: i32, py: i32)
    requires
        cell_bounded(c),
    ensures
        cell_pixels_spec(c).to_multiset().count((px, py)) == if cell_contains(
            c,
            px as int,
            py as int,
        ) {
            1nat
        } else {
            0nat
        },
{
    lemma_cell_pixels_exact(c, px, py);
    let s = cell_pixels_spec(c);
    s.to_multiset_ensures();
    if cell_contains(c, px as int, py as int) {
        s.lemma_multiset_has_no_duplicates();
    }
}

proof fn lemma_pass_pixel_count(cells: Seq<CellRange>, px: i32, py: i32)
    requires
        forall|k: int| 0 <= k < cells.len() ==> cell_bounded(#[trigger] cells[k]),
    ensures
        pass_pixels(cells).to_multiset().count((px, py)) == count_containing(
            cells,
            px as int,
            py as int,
        ),
    decreases cells.len(),
{
    broadcast use vstd::multiset::group_multiset_axioms;
    broadcast use vstd::seq_lib::group_to_multiset_ensures;

    if cells.len() == 0 {
        assert(pass_pixels(cells).len() == 0);
        assert(pass_pixels(cells).to_multiset().len() == 0);
    } else {
        let prev = cells.drop_last();
        assert forall|k: int| 0 <= k < prev.len() implies cell_bounded(#[trigger] prev[k]) by {
            assert(prev[k] == cells[k]);
        }
        lemma_pass_pixel_count(prev, px, py);
        assert(cell_bounded(cells[cells.len() - 1]));
        lemma_cell_pixel_count(cells.last(), px, py);
        vstd::seq_lib::lemma_multiset_commutative(pass_pixels(prev), cell_pixels_spec(cells.last()));
    }
}

/// Rendering a pass renders each pixel of the image exactly once, and no
/// pixel outside it, whatever order the cells were shuffled into.
pub proof fn lemma_pass_renders_each_pixel_once(cells: Seq<CellRange>, w: i32, h: i32, px: i32, py: i32)
    requires
        w < i32::MAX,
        h < i32::MAX,
        cells.to_multiset() == tiling(w as int, h as int).to_multiset(),
    ensures
        pass_pixels(cells).to_multiset().count((px, py)) == if 0 <= px < w && 0 <= py < h {
            1nat
        } else {
            0nat
        },
{
    let t = tiling(w as int, h as int);
    lemma_tiles_bounded(w, h, blocks(w as int) as nat);
    cells.to_multiset_ensures();
    t.to_multiset_ensures();
    assert forall|k: int| 0 <= k < cells.len() implies cell_bounded(#[trigger] cells[k]) by {
        assert(cells.to_multiset().count(cells[k]) > 0);
        assert(t.to_multiset().count(cells[k]) > 0);
        assert(t.contains(cells[k]));
        let j = choose|j: int| 0 <= j < t.len() && t[j] == cells[k];
        assert(cell_bounded(t[j]));
    }
    lemma_pass_pixel_count(cells, px, py);
    lemma_pass_covers_each_pixel_once(cells, w, h, px as int, py as int);
}

} // verus!
