//! The frame compositor: a grid of character cells, each stamped with the
//! frame that last wrote it, which resolves nearest-wins visibility per cell
//! and serializes the grid to a styled character stream.
//!
//! Projected coordinates are in screen units: one unit per column, and two
//! vertical units per row, because a character cell is about twice as tall
//! as it is wide.

use vstd::prelude::*;
use vstd::string::StringExecFns;
use crate::style::{Color, Decor, Style, ESC, style_escape, get_style_escape, push_char};

verus! {

/// The frame stamp of a cell that no frame has written.
pub const NO_FRAME: u64 = 0;

/// One character cell of the grid.
#[derive(Clone, Copy, Debug)]
pub struct Cell {
    /// The frame that last wrote the cell.
    pub frame: u64,
    /// What the cell shows.
    pub style: Style,
    /// Depth rank of what the cell shows: smaller is nearer.
    pub depth: i64,
}

/// A projected sample: pixel column, pixel row (in vertical screen units)
/// and depth rank.
pub type Sample = (i64, i64, i64);

/// A scene object after projection: its vertices as samples, the samples of
/// each rasterized edge, and the styles they are drawn with.
pub struct ProjectedObject {
    pub vertices: Vec<Sample>,
    pub edges: Vec<Vec<Sample>>,
    pub vertex_style: Style,
    pub edge_style: Style,
}

/// The style of a cell that nothing has drawn on.
pub open spec fn blank_style() -> Style {
    (' ', Color::Reset, Decor::Plain)
}

/// A cell as a resize leaves it.
pub open spec fn blank_cell() -> Cell {
    Cell { frame: NO_FRAME, style: blank_style(), depth: 0 }
}

/// Whether pixel `(x, y)` lies on a grid of `width` columns and `height` rows.
pub open spec fn in_bounds(width: int, height: int, x: int, y: int) -> bool {
    0 <= x < width && 0 <= y < 2 * height
}

/// Row-major index of the cell that shows pixel `(x, y)`.
pub open spec fn cell_index(width: int, x: int, y: int) -> int {
    (y / 2) * width + x
}

/// The depth test: a write in `frame` at `depth` replaces `cell` when the
/// cell holds nothing of this frame, or holds something strictly farther.
pub open spec fn wins(cell: Cell, depth: i64, frame: u64) -> bool {
    cell.frame != frame || cell.depth > depth
}

/// The cells after a write of `style` at `depth` in `frame` into cell `i`.
pub open spec fn plotted(cells: Seq<Cell>, i: int, depth: i64, style: Style, frame: u64) -> Seq<
    Cell,
> {
    if wins(cells[i], depth, frame) {
        cells.update(i, Cell { frame, style, depth })
    } else {
        cells
    }
}

/// Within one frame the nearest write wins and a tie keeps the first: once
/// a write of `frame` has taken cell `i`, a later write of the same frame
/// replaces it exactly when its depth is strictly smaller, and otherwise
/// leaves every cell as it was.
pub proof fn lemma_nearest_wins_within_frame(
    cells: Seq<Cell>,
    i: int,
    depth: i64,
    style: Style,
    later_depth: i64,
    later_style: Style,
    frame: u64,
)
    requires
        0 <= i < cells.len(),
        wins(cells[i], depth, frame),
    ensures
        ({
            let once = plotted(cells, i, depth, style, frame);
            &&& once[i] == Cell { frame, style, depth }
            &&& later_depth < depth ==> plotted(once, i, later_depth, later_style, frame)
                == once.update(i, Cell { frame, style: later_style, depth: later_depth })
            &&& later_depth >= depth ==> plotted(once, i, later_depth, later_style, frame)
                == once
        }),
{
}

/// A cell stamped with another frame is empty for `frame`: the first write
/// of `frame` takes it, whatever depth it holds.
pub proof fn lemma_stale_cell_is_empty(
    cells: Seq<Cell>,
    i: int,
    depth: i64,
    style: Style,
    frame: u64,
)
    requires
        0 <= i < cells.len(),
        cells[i].frame != frame,
    ensures
        plotted(cells, i, depth, style, frame) == cells.update(i, Cell { frame, style, depth }),
{
}

/// The cells after one sample: written through if it lies on the grid,
/// dropped otherwise.
pub open spec fn sampled(
    width: int,
    height: int,
    cells: Seq<Cell>,
    s: Sample,
    style: Style,
    frame: u64,
) -> Seq<Cell> {
    if in_bounds(width, height, s.0 as int, s.1 as int) {
        plotted(cells, cell_index(width, s.0 as int, s.1 as int), s.2, style, frame)
    } else {
        cells
    }
}

/// The cells after the samples of `samples`, in order.
pub open spec fn buffered(
    width: int,
    height: int,
    cells: Seq<Cell>,
    samples: Seq<Sample>,
    style: Style,
    frame: u64,
) -> Seq<Cell>
    decreases samples.len(),
{
    if samples.len() == 0 {
        cells
    } else {
        sampled(
            width,
            height,
            buffered(width, height, cells, samples.drop_last(), style, frame),
            samples.last(),
            style,
            frame,
        )
    }
}

/// The cells after the samples of each edge in `edges`, edge by edge.
pub open spec fn buffered_edges(
    width: int,
    height: int,
    cells: Seq<Cell>,
    edges: Seq<Seq<Sample>>,
    style: Style,
    frame: u64,
) -> Seq<Cell>
    decreases edges.len(),
{
    if edges.len() == 0 {
        cells
    } else {
        buffered(
            width,
            height,
            buffered_edges(width, height, cells, edges.drop_last(), style, frame),
            edges.last(),
            style,
            frame,
        )
    }
}

/// The colour and decoration of a cell, the part of its style that an
/// escape sequence selects.
pub open spec fn look(c: Cell) -> (Color, Decor) {
    (c.style.1, c.style.2)
}

/// The look in force before cell `i` is written: that of the previous cell,
/// or the reset look at the start of the stream.
pub open spec fn look_before(cells: Seq<Cell>, i: int) -> (Color, Decor) {
    if i == 0 {
        (Color::Reset, Decor::Plain)
    } else {
        look(cells[i - 1])
    }
}

/// What cell `i` adds to the stream: an escape where its look differs from
/// the one in force, a newline where a row begins (but the first), then its
/// glyph.
pub open spec fn cell_text(cells: Seq<Cell>, width: int, i: int) -> Seq<char> {
    let escape = if look(cells[i]) != look_before(cells, i) {
        style_escape(cells[i].style.1, cells[i].style.2)
    } else {
        Seq::empty()
    };
    let newline = if i != 0 && width > 0 && i % width == 0 {
        seq!['\n']
    } else {
        Seq::empty()
    };
    escape + newline + seq![cells[i].style.0]
}

/// The text of the first `n` cells.
pub open spec fn cells_text(cells: Seq<Cell>, width: int, n: int) -> Seq<char>
    decreases n,
{
    if n <= 0 {
        Seq::empty()
    } else {
        cells_text(cells, width, n - 1) + cell_text(cells, width, n - 1)
    }
}

/// The whole frame as sent to the terminal: cursor home, the reset look, and
/// the cells in row-major order.
pub open spec fn frame_text(cells: Seq<Cell>, width: int) -> Seq<char> {
    seq![ESC, '[', 'H'] + style_escape(Color::Reset, Decor::Plain) + cells_text(
        cells,
        width,
        cells.len() as int,
    )
}

proof fn lemma_grid_area_fits(w: u16, h: u16)
    ensures
        0 <= w * h <= 0xffff_ffff,
{
    assert(0 <= w * h <= 65535 * 65535) by (nonlinear_arith)
        requires
            0 <= w <= 65535,
            0 <= h <= 65535,
    ;
}

/// The character grid with its depth buffer.
pub struct Terminal {
    term_width: u16,
    term_height: u16,
    display: Vec<Cell>,
}

impl Terminal {
    /// Columns of the grid.
    pub closed spec fn width(&self) -> nat {
        self.term_width as nat
    }

    /// Rows of the grid.
    pub closed spec fn height(&self) -> nat {
        self.term_height as nat
    }

    /// The cells, row by row.
    pub closed spec fn cells(&self) -> Seq<Cell> {
        self.display@
    }

    /// Whether the cell buffer matches the grid's dimensions.
    pub open spec fn is_sized_spec(&self) -> bool {
        self.cells().len() == self.width() * self.height()
    }

    /// A grid of `cols` columns and `rows` rows whose cell buffer is not
    /// allocated yet: the first `pre_render` allocates it.
    pub fn new(cols: u16, rows: u16) -> (t: Terminal)
        ensures
            t.width() == cols,
            t.height() == rows,
            t.cells() == Seq::<Cell>::empty(),
    {
        Terminal { term_width: cols, term_height: rows, display: Vec::new() }
    }

    /// Whether the cell buffer matches the grid's dimensions.
    pub fn is_sized(&self) -> (r: bool)
        ensures
            r == self.is_sized_spec(),
    {
        proof {
            lemma_grid_area_fits(self.term_width, self.term_height);
        }
        self.display.len() as u64 == self.term_width as u64 * self.term_height as u64
    }

    /// The screen size for a camera: the columns, and the rows counted in
    /// vertical screen units (two per row).
    pub fn get_term_size(&self) -> (r: (u16, u16))
        requires
            2 * self.height() <= u16::MAX,
        ensures
            r.0 == self.width(),
            r.1 == 2 * self.height(),
    {
        (self.term_width, self.term_height * 2)
    }

    /// Whether pixel `(x, y)` lies on the grid.
    pub fn is_in_bounds(&self, x: i64, y: i64) -> (r: bool)
        ensures
            r == in_bounds(self.width() as int, self.height() as int, x as int, y as int),
    {
        x >= 0 && x < self.term_width as i64 && y >= 0 && y < self.term_height as i64 * 2
    }

    /// Writes `style` at `depth` in `frame` to the cell that shows pixel
    /// `(x, y)`, if the depth test lets it through.
    pub fn plot_character(&mut self, x: i64, y: i64, depth: i64, style: Style, frame: u64)
        requires
            old(self).is_sized_spec(),
            in_bounds(old(self).width() as int, old(self).height() as int, x as int, y as int),
        ensures
            final(self).width() == old(self).width(),
            final(self).height() == old(self).height(),
            final(self).is_sized_spec(),
            final(self).cells() == plotted(
                old(self).cells(),
                cell_index(old(self).width() as int, x as int, y as int),
                depth,
                style,
                frame,
            ),
    {
        proof {
            lemma_cell_index_in_grid(self.term_width as int, self.term_height as int, x as int, y as int);
        }
        let len = self.display.len();
        assert((y / 2) * self.term_width <= len && (y / 2) * self.term_width + x < len);
        let index = (y / 2) as usize * self.term_width as usize + x as usize;
        let cell = self.display[index];
        if cell.frame != frame || cell.depth > depth {
            self.display.set(index, Cell { frame, style, depth });
        }
    }

    /// Brings the cell buffer to `cols` columns and `rows` rows. A buffer that
    /// already has them is kept; otherwise it is reallocated with every cell
    /// blank and stamped with no frame.
    pub fn pre_render(&mut self, cols: u16, rows: u16)
        ensures
            final(self).width() == cols,
            final(self).height() == rows,
            final(self).is_sized_spec(),
            old(self).is_sized_spec() && old(self).width() == cols && old(self).height() == rows
                ==> final(self).cells() == old(self).cells(),
            !(old(self).is_sized_spec() && old(self).width() == cols && old(self).height() == rows)
                ==> final(self).cells() == Seq::new(
                (cols * rows) as nat,
                |i: int| blank_cell(),
            ),
    {
        if self.is_sized() && self.term_width == cols && self.term_height == rows {
            return;
        }
        proof {
            lemma_grid_area_fits(cols, rows);
        }
        let count = cols as usize * rows as usize;
        let mut display: Vec<Cell> = Vec::with_capacity(count);
        let mut i: usize = 0;
        while i < count
            invariant
                i <= count,
                display@ == Seq::new(i as nat, |j: int| blank_cell()),
            decreases count - i,
        {
            display.push(Cell { frame: NO_FRAME, style: (' ', Color::Reset, Decor::Plain), depth: 0 });
            i = i + 1;
            assert(display@ =~= Seq::new(i as nat, |j: int| blank_cell()));
        }
        self.term_width = cols;
        self.term_height = rows;
        self.display = display;
    }

    /// Writes each sample of `samples` that lies on the grid, in order,
    /// through the depth test.
    pub fn buffer_samples(&mut self, samples: &Vec<Sample>, style: Style, frame: u64)
        requires
            old(self).is_sized_spec(),
        ensures
            final(self).width() == old(self).width(),
            final(self).height() == old(self).height(),
            final(self).is_sized_spec(),
            final(self).cells() == buffered(
                old(self).width() as int,
                old(self).height() as int,
                old(self).cells(),
                samples@,
                style,
                frame,
            ),
    {
        let ghost w = self.width() as int;
        let ghost h = self.height() as int;
        let ghost start = self.cells();
        let mut i: usize = 0;
        assert(samples@.subrange(0, 0) =~= Seq::<Sample>::empty());
        while i < samples.len()
            invariant
                i <= samples@.len(),
                self.width() == w,
                self.height() == h,
                self.is_sized_spec(),
                self.cells() == buffered(w, h, start, samples@.subrange(0, i as int), style, frame),
            decreases samples@.len() - i,
        {
            let s = samples[i];
            if self.is_in_bounds(s.0, s.1) {
                self.plot_character(s.0, s.1, s.2, style, frame);
            }
            assert(samples@.subrange(0, i + 1).drop_last() =~= samples@.subrange(0, i as int));
            i = i + 1;
        }
        assert(samples@.subrange(0, samples@.len() as int) =~= samples@);
    }

    /// Writes a projected object into the buffer for `frame`: first its
    /// vertices in the vertex style, then each edge's samples in the edge
    /// style. Samples off the grid are dropped.
    pub fn buffer_world_object(&mut self, obj: &ProjectedObject, frame: u64)
        requires
            old(self).is_sized_spec(),
        ensures
            final(self).width() == old(self).width(),
            final(self).height() == old(self).height(),
            final(self).is_sized_spec(),
            final(self).cells() == buffered_edges(
                old(self).width() as int,
                old(self).height() as int,
                buffered(
                    old(self).width() as int,
                    old(self).height() as int,
                    old(self).cells(),
                    obj.vertices@,
                    obj.vertex_style,
                    frame,
                ),
                obj.edges.deep_view(),
                obj.edge_style,
                frame,
            ),
    {
        self.buffer_samples(&obj.vertices, obj.vertex_style, frame);
        let ghost w = self.width() as int;
        let ghost h = self.height() as int;
        let ghost start = self.cells();
        let ghost edges = obj.edges.deep_view();
        let mut e: usize = 0;
        assert(edges.subrange(0, 0) =~= Seq::<Seq<Sample>>::empty());
        while e < obj.edges.len()
            invariant
                e <= edges.len(),
                edges == obj.edges.deep_view(),
                self.width() == w,
                self.height() == h,
                self.is_sized_spec(),
                self.cells() == buffered_edges(
                    w,
                    h,
                    start,
                    edges.subrange(0, e as int),
                    obj.edge_style,
                    frame,
                ),
            decreases edges.len() - e,
        {
            self.buffer_samples(&obj.edges[e], obj.edge_style, frame);
            assert(edges.subrange(0, e + 1).drop_last() =~= edges.subrange(0, e as int));
            assert(edges[e as int] == obj.edges@[e as int]@);
            e = e + 1;
        }
        assert(edges.subrange(0, edges.len() as int) =~= edges);
    }

    /// The cell that shows pixel `(x, y)`, where the buffer is allocated and
    /// the pixel lies on the grid.
    pub fn cell_at(&self, x: i64, y: i64) -> (r: Option<Cell>)
        ensures
            self.is_sized_spec() && in_bounds(
                self.width() as int,
                self.height() as int,
                x as int,
                y as int,
            ) ==> r == Some(self.cells()[cell_index(self.width() as int, x as int, y as int)]),
            !(self.is_sized_spec() && in_bounds(
                self.width() as int,
                self.height() as int,
                x as int,
                y as int,
            )) ==> r is None,
    {
        if self.is_sized() && self.is_in_bounds(x, y) {
            proof {
                lemma_cell_index_in_grid(self.term_width as int, self.term_height as int, x as int, y as int);
            }
            let len = self.display.len();
        assert((y / 2) * self.term_width <= len && (y / 2) * self.term_width + x < len);
        let index = (y / 2) as usize * self.term_width as usize + x as usize;
            Some(self.display[index])
        } else {
            None
        }
    }

    /// The frame as a character stream: cursor home, the reset look, then
    /// every cell in row-major order with a newline before each row but the
    /// first, and an escape sequence wherever the look changes.
    pub fn render(&self) -> (r: String)
        ensures
            r@ == frame_text(self.cells(), self.width() as int),
    {
        let ghost cells = self.cells();
        let ghost w = self.width() as int;
        let mut out = String::new();
        push_char(&mut out, ESC);
        push_char(&mut out, '[');
        push_char(&mut out, 'H');
        let reset = get_style_escape((' ', Color::Reset, Decor::Plain));
        out.append(reset.as_str());
        let ghost header = out@;
        let width = self.term_width as usize;
        let mut prev: (Color, Decor) = (Color::Reset, Decor::Plain);
        let mut i: usize = 0;
        while i < self.display.len()
            invariant
                i <= cells.len(),
                cells == self.cells(),
                w == self.width(),
                width == w,
                header == seq![ESC, '[', 'H'] + style_escape(Color::Reset, Decor::Plain),
                out@ == header + cells_text(cells, w, i as int),
                prev == look_before(cells, i as int),
            decreases cells.len() - i,
        {
            let item = self.display[i];
            let ghost before = out@;
            if item.style.1 != prev.0 || item.style.2 != prev.1 {
                prev = (item.style.1, item.style.2);
                let escape = get_style_escape(item.style);
                out.append(escape.as_str());
            } else {
                prev = (item.style.1, item.style.2);
            }
            if i != 0 && width > 0 && i % width == 0 {
                push_char(&mut out, '\n');
            }
            push_char(&mut out, item.style.0);
            assert(out@ =~= before + cell_text(cells, w, i as int));
            i = i + 1;
        }
        assert(out@ =~= frame_text(cells, w));
        out
    }
}

proof fn lemma_cell_index_in_grid(w: int, h: int, x: int, y: int)
    requires
        in_bounds(w, h, x, y),
    ensures
        0 <= cell_index(w, x, y) < w * h,
{
    let r = y / 2;
    assert(0 <= r < h);
    assert(0 <= r * w + x < w * h) by (nonlinear_arith)
        requires
            0 <= r < h,
            0 <= x < w,
    ;
}

} // verus!
