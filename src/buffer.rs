//! Cells and the rectangular grid of cells.

use crate::text::{Color, Modifier, Style};
use crate::unicode::{display_width, graphemes, graphemes_of, lines, split_lines, str_width};
use crate::window::Rect;
use vstd::prelude::*;

verus! {

/// One grid position: a grapheme, its colors and emphasis flags, and whether
/// it is left out when the grid is drawn.
#[derive(Debug)]
pub struct Cell {
    pub symbol: String,
    pub fg: Color,
    pub bg: Color,
    pub modifier: Modifier,
    pub skip: bool,
}

/// What a cell shows, with its grapheme as characters.
pub struct CellView {
    pub symbol: Seq<char>,
    pub fg: Color,
    pub bg: Color,
    pub modifier: u16,
    pub skip: bool,
}

impl View for Cell {
    type V = CellView;

    open spec fn view(&self) -> CellView {
        CellView {
            symbol: self.symbol@,
            fg: self.fg,
            bg: self.bg,
            modifier: self.modifier.bits,
            skip: self.skip,
        }
    }
}

/// The cell of a freshly made grid: a space in the default colors.
pub open spec fn blank() -> CellView {
    CellView { symbol: seq![' '], fg: Color::Reset, bg: Color::Reset, modifier: 0, skip: false }
}

/// A cell after `style` is applied to it.
pub open spec fn styled(c: CellView, style: Style) -> CellView {
    CellView {
        fg: if style.fg is Some { style.fg.unwrap() } else { c.fg },
        bg: if style.bg is Some { style.bg.unwrap() } else { c.bg },
        modifier: (c.modifier | style.add_modifier.bits) & !style.sub_modifier.bits,
        ..c
    }
}

/// Relies on `String::push` of std: appends one character.
#[verifier::external_body]
fn push_char(s: &mut String, ch: char)
    ensures
        final(s)@ == old(s)@.push(ch),
{
    s.push(ch)
}

impl PartialEq for Cell {
    fn eq(&self, other: &Cell) -> (r: bool)
        ensures
            r == (self@ == other@),
    {
        self.symbol == other.symbol && self.fg == other.fg && self.bg == other.bg
            && self.modifier == other.modifier && self.skip == other.skip
    }
}

impl vstd::std_specs::cmp::PartialEqSpecImpl for Cell {
    open spec fn obeys_eq_spec() -> bool {
        true
    }

    open spec fn eq_spec(&self, other: &Cell) -> bool {
        self@ == other@
    }
}

impl Eq for Cell {
}

impl Clone for Cell {
    fn clone(&self) -> (r: Cell)
        ensures
            r == *self,
    {
        Cell {
            symbol: self.symbol.clone(),
            fg: self.fg,
            bg: self.bg,
            modifier: self.modifier,
            skip: self.skip,
        }
    }
}

impl Default for Cell {
    fn default() -> (r: Cell)
        ensures
            r@ == blank(),
    {
        Cell::blank()
    }
}

impl Cell {
    /// A space in the default colors, with no flags.
    pub fn blank() -> (r: Cell)
        ensures
            r@ == blank(),
    {
        let symbol = String::from_str(" ");
        proof {
            reveal_strlit(" ");
            assert(symbol@ =~= seq![' ']);
        }
        Cell { symbol, fg: Color::Reset, bg: Color::Reset, modifier: Modifier::empty(), skip: false }
    }

    pub fn set_symbol(&mut self, symbol: &str)
        ensures
            final(self)@ == (CellView { symbol: symbol@, ..old(self)@ }),
    {
        self.symbol = symbol.to_owned();
    }

    pub fn set_char(&mut self, ch: char)
        ensures
            final(self)@ == (CellView { symbol: seq![ch], ..old(self)@ }),
    {
        let mut s = String::new();
        push_char(&mut s, ch);
        self.symbol = s;
    }

    pub fn set_fg(&mut self, color: Color)
        ensures
            final(self)@ == (CellView { fg: color, ..old(self)@ }),
    {
        self.fg = color;
    }

    pub fn set_bg(&mut self, color: Color)
        ensures
            final(self)@ == (CellView { bg: color, ..old(self)@ }),
    {
        self.bg = color;
    }

    /// Applies a style: its explicit colors replace the cell's, its flags to
    /// switch on are set, then its flags to switch off are cleared.
    pub fn set_style(&mut self, style: Style)
        ensures
            final(self)@ == styled(old(self)@, style),
    {
        if let Some(c) = style.fg {
            self.fg = c;
        }
        if let Some(c) = style.bg {
            self.bg = c;
        }
        self.modifier.insert(style.add_modifier);
        self.modifier.remove(style.sub_modifier);
    }

    /// The cell's colors and flags as a style.
    pub fn style(&self) -> (r: Style)
        ensures
            r.fg == Some(self.fg),
            r.bg == Some(self.bg),
            r.add_modifier == self.modifier,
            r.sub_modifier.bits == 0,
    {
        let r = Style::default().fg(self.fg).bg(self.bg).add_modifier(self.modifier);
        proof {
            let m = self.modifier.bits;
            assert(0u16 | m == m) by (bit_vector);
            assert(0u16 & !m == 0) by (bit_vector);
        }
        r
    }

    /// Marks the cell to be left out when the grid is drawn, as under an
    /// image of a terminal graphics protocol.
    pub fn set_skip(&mut self, skip: bool)
        ensures
            final(self)@ == (CellView { skip, ..old(self)@ }),
    {
        self.skip = skip;
    }

    /// Restores the blank cell.
    pub fn reset(&mut self)
        ensures
            final(self)@ == blank(),
    {
        *self = Cell::blank();
    }
}

/// A grid of `width` by `height` cells, stored row by row.
#[derive(Debug, Clone)]
pub struct Buffer {
    pub width: u16,
    pub height: u16,
    pub content: Vec<Cell>,
}

/// `cells` with the positions from `lo` up to `hi` blanked.
pub open spec fn blank_range(cells: Seq<CellView>, lo: int, hi: int) -> Seq<CellView> {
    Seq::new(cells.len(), |i: int| if lo <= i < hi { blank() } else { cells[i] })
}

/// Places the graphemes `gs` from position `idx` of `cells`, whose column is
/// `off`, up to column `max`: a grapheme of width zero takes no cell; one
/// that does not fit in the columns left ends the placement; any other takes
/// the cell at `idx`, with `style` applied, and blanks the cells that its
/// further columns cover. Gives the cells and the column after the last
/// grapheme placed.
pub open spec fn place(
    cells: Seq<CellView>,
    idx: int,
    off: int,
    max: int,
    gs: Seq<Seq<char>>,
    style: Style,
) -> (Seq<CellView>, int)
    decreases gs.len(),
{
    if gs.len() == 0 {
        (cells, off)
    } else {
        let w = str_width(gs[0]) as int;
        if w == 0 {
            place(cells, idx, off, max, gs.drop_first(), style)
        } else if w > max - off {
            (cells, off)
        } else {
            let put = cells.update(idx, styled(CellView { symbol: gs[0], ..cells[idx] }, style));
            place(blank_range(put, idx + 1, idx + w), idx + w, off + w, max, gs.drop_first(), style)
        }
    }
}

/// Placement stays within the columns from `off` up to `max` of the row that
/// holds position `idx`, and keeps every other cell.
pub proof fn lemma_place_bounds(
    cells: Seq<CellView>,
    idx: int,
    off: int,
    max: int,
    gs: Seq<Seq<char>>,
    style: Style,
)
    requires
        off <= max,
        0 <= idx,
        idx + (max - off) <= cells.len(),
    ensures
        place(cells, idx, off, max, gs, style).0.len() == cells.len(),
        off <= place(cells, idx, off, max, gs, style).1 <= max,
        forall|i: int|
            0 <= i < cells.len() && !(idx <= i < idx + (place(cells, idx, off, max, gs, style).1 - off))
                ==> #[trigger] place(cells, idx, off, max, gs, style).0[i] == cells[i],
    decreases gs.len(),
{
    if gs.len() > 0 {
        let w = str_width(gs[0]) as int;
        if w == 0 {
            lemma_place_bounds(cells, idx, off, max, gs.drop_first(), style);
        } else if w <= max - off {
            let put = cells.update(idx, styled(CellView { symbol: gs[0], ..cells[idx] }, style));
            let next = blank_range(put, idx + 1, idx + w);
            lemma_place_bounds(next, idx + w, off + w, max, gs.drop_first(), style);
        }
    }
}

/// The changes from `prev` to `cur` among their first `n` positions, in
/// ascending order: for each position where the two differ, its column and
/// row in a grid of the given `width`, and the cell of `cur`.
pub open spec fn diff_entries(prev: Seq<CellView>, cur: Seq<CellView>, width: int, n: int) -> Seq<
    (int, int, CellView),
>
    decreases n,
{
    if n <= 0 {
        seq![]
    } else if prev[n - 1] != cur[n - 1] {
        diff_entries(prev, cur, width, n - 1).push(((n - 1) % width, (n - 1) / width, cur[n - 1]))
    } else {
        diff_entries(prev, cur, width, n - 1)
    }
}

/// The cells among the first `n` of `cells` that are drawn, in ascending
/// order: for each cell not marked to skip, its column and row in a grid of
/// the given `width`, and the cell.
pub open spec fn visible_entries(cells: Seq<CellView>, width: int, n: int) -> Seq<(int, int, CellView)>
    decreases n,
{
    if n <= 0 {
        seq![]
    } else if !cells[n - 1].skip {
        visible_entries(cells, width, n - 1).push(((n - 1) % width, (n - 1) / width, cells[n - 1]))
    } else {
        visible_entries(cells, width, n - 1)
    }
}

/// Every drawn cell's column and row lie in the grid.
pub proof fn lemma_visible_entries_in_grid(cells: Seq<CellView>, width: int, height: int, n: int)
    requires
        width > 0,
        height >= 0,
        0 <= n <= width * height,
        n <= cells.len(),
    ensures
        forall|k: int|
            0 <= k < visible_entries(cells, width, n).len() ==> {
                let e = #[trigger] visible_entries(cells, width, n)[k];
                &&& 0 <= e.0 < width
                &&& 0 <= e.1 < height
                &&& e.2 == cells[e.1 * width + e.0]
                &&& e.1 * width + e.0 < n
            },
    decreases n,
{
    if n > 0 {
        lemma_visible_entries_in_grid(cells, width, height, n - 1);
        let j = n - 1;
        assert(j / width < height) by (nonlinear_arith)
            requires
                0 <= j < width * height,
                width > 0,
        ;
        assert(0 <= j % width < width) by (nonlinear_arith)
            requires
                width > 0,
        ;
        assert(0 <= j / width) by (nonlinear_arith)
            requires
                width > 0,
                j >= 0,
        ;
        lemma_entry_index(j, width);
        assert(entry_index((j % width, j / width, blank()), width) == j);
        assert((j / width) * width + j % width == j);
        let prev = visible_entries(cells, width, j);
        if !cells[j].skip {
            assert(visible_entries(cells, width, n) == prev.push((j % width, j / width, cells[j])));
        }
    }
}

/// The position of an entry's column and row in a grid of the given width.
pub open spec fn entry_index(e: (int, int, CellView), width: int) -> int {
    e.1 * width + e.0
}

/// `cells` with each entry's cell written at the entry's position, first to last.
pub open spec fn apply_entries(cells: Seq<CellView>, width: int, es: Seq<(int, int, CellView)>) -> Seq<
    CellView,
>
    decreases es.len(),
{
    if es.len() == 0 {
        cells
    } else {
        apply_entries(cells, width, es.drop_last()).update(entry_index(es.last(), width), es.last().2)
    }
}

/// The view of a list of changes as produced by a grid.
pub open spec fn entries_view(v: Seq<(u16, u16, Cell)>) -> Seq<(int, int, CellView)> {
    v.map_values(|e: (u16, u16, Cell)| (e.0 as int, e.1 as int, e.2@))
}

/// The column and row of an entry name its position back.
proof fn lemma_entry_index(i: int, width: int)
    requires
        width > 0,
        0 <= i,
    ensures
        entry_index((i % width, i / width, blank()), width) == i,
{
    vstd::arithmetic::div_mod::lemma_fundamental_div_mod(i, width);
    assert(width * (i / width) == (i / width) * width) by (nonlinear_arith);
}

/// The changes between two grids are exactly the positions where their cells
/// differ: each entry names a position where they differ, with the cell of
/// `cur`; the positions ascend strictly; every position where they differ has
/// an entry. A grid has no change against itself.
pub proof fn lemma_diff_exact(prev: Seq<CellView>, cur: Seq<CellView>, width: int, n: int)
    requires
        width > 0,
        0 <= n <= prev.len(),
        n <= cur.len(),
    ensures
        forall|k: int|
            0 <= k < diff_entries(prev, cur, width, n).len() ==> {
                let i = entry_index(#[trigger] diff_entries(prev, cur, width, n)[k], width);
                &&& 0 <= i < n
                &&& prev[i] != cur[i]
                &&& diff_entries(prev, cur, width, n)[k].2 == cur[i]
                &&& diff_entries(prev, cur, width, n)[k].0 == i % width
                &&& diff_entries(prev, cur, width, n)[k].1 == i / width
            },
        forall|k: int, l: int|
            0 <= k < l < diff_entries(prev, cur, width, n).len() ==> entry_index(
                #[trigger] diff_entries(prev, cur, width, n)[k],
                width,
            ) < entry_index(#[trigger] diff_entries(prev, cur, width, n)[l], width),
        forall|i: int|
            0 <= i < n && #[trigger] prev[i] != cur[i] ==> exists|k: int|
                0 <= k < diff_entries(prev, cur, width, n).len() && entry_index(
                    #[trigger] diff_entries(prev, cur, width, n)[k],
                    width,
                ) == i,
        diff_entries(cur, cur, width, n).len() == 0,
    decreases n,
{
    if n > 0 {
        lemma_diff_exact(prev, cur, width, n - 1);
        lemma_entry_index(n - 1, width);
        let es = diff_entries(prev, cur, width, n);
        let before = diff_entries(prev, cur, width, n - 1);
        if prev[n - 1] != cur[n - 1] {
            assert(es == before.push(((n - 1) % width, (n - 1) / width, cur[n - 1])));
            assert(entry_index(es[es.len() - 1], width) == n - 1);
            assert forall|i: int| 0 <= i < n && #[trigger] prev[i] != cur[i] implies exists|k: int|
                0 <= k < es.len() && entry_index(#[trigger] es[k], width) == i by {
                if i == n - 1 {
                    assert(entry_index(es[es.len() - 1], width) == i);
                } else {
                    let k = choose|k: int| 0 <= k < before.len() && entry_index(#[trigger] before[k], width) == i;
                    assert(es[k] == before[k]);
                }
            }
        } else {
            assert forall|i: int| 0 <= i < n && #[trigger] prev[i] != cur[i] implies exists|k: int|
                0 <= k < es.len() && entry_index(#[trigger] es[k], width) == i by {
                let k = choose|k: int| 0 <= k < before.len() && entry_index(#[trigger] before[k], width) == i;
            }
        }
    }
}

/// Writing the changes from `prev` to `cur` onto `prev` gives `cur`, and the
/// changes from the result to `cur` are then none.
pub proof fn lemma_diff_applied(prev: Seq<CellView>, cur: Seq<CellView>, width: int)
    requires
        width > 0,
        prev.len() == cur.len(),
    ensures
        apply_entries(prev, width, diff_entries(prev, cur, width, cur.len() as int)) == cur,
        diff_entries(
            apply_entries(prev, width, diff_entries(prev, cur, width, cur.len() as int)),
            cur,
            width,
            cur.len() as int,
        ).len() == 0,
{
    lemma_apply_prefix(prev, cur, width, cur.len() as int);
    assert(apply_entries(prev, width, diff_entries(prev, cur, width, cur.len() as int)) =~= cur);
    lemma_diff_exact(cur, cur, width, cur.len() as int);
}

proof fn lemma_apply_prefix(prev: Seq<CellView>, cur: Seq<CellView>, width: int, m: int)
    requires
        width > 0,
        prev.len() == cur.len(),
        0 <= m <= cur.len(),
    ensures
        apply_entries(prev, width, diff_entries(prev, cur, width, m)).len() == prev.len(),
        forall|i: int|
            0 <= i < prev.len() ==> #[trigger] apply_entries(prev, width, diff_entries(prev, cur, width, m))[i]
                == if i < m {
                cur[i]
            } else {
                prev[i]
            },
    decreases m,
{
    if m > 0 {
        lemma_apply_prefix(prev, cur, width, m - 1);
        lemma_entry_index(m - 1, width);
        let before = diff_entries(prev, cur, width, m - 1);
        if prev[m - 1] != cur[m - 1] {
            let es = before.push(((m - 1) % width, (m - 1) / width, cur[m - 1]));
            assert(es.drop_last() =~= before);
            assert(entry_index(es.last(), width) == m - 1);
        }
    }
}

/// Whether column `cx` of row `cy` lies in `area`.
pub open spec fn in_rect(cx: int, cy: int, area: Rect) -> bool {
    area.x <= cx < area.x + area.width && area.y <= cy < area.y + area.height
}

/// Writes each line of `ls` from column `x`, the first in row `y` and each
/// next one a row further down, as far as the grid's last row.
pub open spec fn place_lines(
    cells: Seq<CellView>,
    width: int,
    height: int,
    x: int,
    y: int,
    ls: Seq<Seq<char>>,
    style: Style,
) -> Seq<CellView>
    decreases ls.len(),
{
    if ls.len() == 0 || y >= height {
        cells
    } else {
        place_lines(
            place(cells, y * width + x, x, width, graphemes_of(ls[0]), style).0,
            width,
            height,
            x,
            y + 1,
            ls.drop_first(),
            style,
        )
    }
}

/// `cells`, of a grid of the given `width`, with the cells of a grid of
/// `other_width` columns copied over them from column `x` of row `y`.
pub open spec fn insert_spec(
    cells: Seq<CellView>,
    width: int,
    x: int,
    y: int,
    other: Seq<CellView>,
    other_width: int,
    other_height: int,
) -> Seq<CellView> {
    Seq::new(
        cells.len(),
        |i: int|
            if x <= i % width < x + other_width && y <= i / width < y + other_height {
                other[(i / width - y) * other_width + (i % width - x)]
            } else {
                cells[i]
            },
    )
}

/// The smaller of two integers.
pub open spec fn min_int(a: int, b: int) -> int {
    if a < b {
        a
    } else {
        b
    }
}

/// The number of cells of a grid of `width` by `height`.
fn cell_count(width: u16, height: u16) -> (r: usize)
    ensures
        r == width * height,
{
    let (w, h) = (width as u32, height as u32);
    assert(w * h <= 0xffff * 0xffff) by (nonlinear_arith)
        requires
            w <= 0xffff,
            h <= 0xffff,
    ;
    (w * h) as usize
}

/// A grapheme two columns wide takes the cell where it is placed, and the
/// next cell is blanked so that it is never drawn on its own.
pub proof fn lemma_wide_grapheme(
    cells: Seq<CellView>,
    idx: int,
    off: int,
    max: int,
    gs: Seq<Seq<char>>,
    style: Style,
)
    requires
        gs.len() > 0,
        str_width(gs[0]) == 2,
        off + 2 <= max,
        0 <= idx,
        idx + (max - off) <= cells.len(),
    ensures
        place(cells, idx, off, max, gs, style).0[idx] == styled(CellView { symbol: gs[0], ..cells[idx] }, style),
        place(cells, idx, off, max, gs, style).0[idx + 1] == blank(),
{
    let put = cells.update(idx, styled(CellView { symbol: gs[0], ..cells[idx] }, style));
    let next = blank_range(put, idx + 1, idx + 2);
    lemma_place_bounds(next, idx + 2, off + 2, max, gs.drop_first(), style);
}

/// A grapheme wider than the columns left is not placed, nor anything after
/// it: the cells stay as they are.
pub proof fn lemma_wide_grapheme_truncated(
    cells: Seq<CellView>,
    idx: int,
    off: int,
    max: int,
    gs: Seq<Seq<char>>,
    style: Style,
)
    requires
        gs.len() > 0,
        str_width(gs[0]) > max - off,
        str_width(gs[0]) > 0,
    ensures
        place(cells, idx, off, max, gs, style) == (cells, off),
{
}

impl Buffer {
    /// The number of cells matches the dimensions.
    pub open spec fn wf(&self) -> bool {
        self.content@.len() == self.width as int * self.height as int
    }

    /// What each cell shows, row by row.
    pub open spec fn cells(&self) -> Seq<CellView> {
        self.content@.map_values(|c: Cell| c@)
    }

    /// The position of column `x` of row `y`.
    pub open spec fn index_spec(&self, x: int, y: int) -> int {
        y * self.width + x
    }

    /// A grid of blank cells.
    pub fn empty(width: u16, height: u16) -> (r: Buffer)
        ensures
            r.wf(),
            r.width == width,
            r.height == height,
            forall|i: int| 0 <= i < r.cells().len() ==> #[trigger] r.cells()[i] == blank(),
    {
        let cell = Cell::blank();
        Buffer::filled(width, height, &cell)
    }

    /// A grid of copies of `cell`.
    pub fn filled(width: u16, height: u16, cell: &Cell) -> (r: Buffer)
        ensures
            r.wf(),
            r.width == width,
            r.height == height,
            forall|i: int| 0 <= i < r.cells().len() ==> #[trigger] r.cells()[i] == cell@,
    {
        let size: usize = cell_count(width, height);
        let mut content: Vec<Cell> = Vec::with_capacity(size);
        let mut i: usize = 0;
        while i < size
            invariant
                i <= size,
                size == width as int * height as int,
                content@.len() == i,
                forall|k: int| 0 <= k < i ==> #[trigger] content@[k]@ == cell@,
            decreases size - i,
        {
            content.push(cell.clone());
            i += 1;
        }
        let r = Buffer { width, height, content };
        assert forall|k: int| 0 <= k < r.cells().len() implies #[trigger] r.cells()[k] == cell@ by {
            assert(r.cells()[k] == r.content@[k]@);
        }
        r
    }

    /// Changes the dimensions. The cells that remain keep their place in the
    /// row-by-row order; those added are blank.
    pub fn resize(&mut self, width: u16, height: u16)
        requires
            old(self).wf(),
        ensures
            final(self).wf(),
            final(self).width == width,
            final(self).height == height,
            forall|i: int|
                0 <= i < final(self).cells().len() ==> #[trigger] final(self).cells()[i] == if i
                    < old(self).cells().len() {
                    old(self).cells()[i]
                } else {
                    blank()
                },
    {
        let size: usize = cell_count(width, height);
        let ghost before = self.cells();
        self.width = width;
        self.height = height;
        self.content.truncate(size);
        while self.content.len() < size
            invariant
                size == width as int * height as int,
                self.width == width,
                self.height == height,
                self.content@.len() < size ==> self.content@.len() >= before.len(),
                self.content@.len() <= size,
                forall|k: int|
                    0 <= k < self.content@.len() ==> #[trigger] self.content@[k]@ == if k
                        < before.len() {
                        before[k]
                    } else {
                        blank()
                    },
            decreases size - self.content@.len(),
        {
            self.content.push(Cell::blank());
        }
    }

    /// The number of cells that the dimensions call for.
    pub fn area(&self) -> (r: usize)
        ensures
            r == self.width * self.height,
    {
        cell_count(self.width, self.height)
    }

    /// Blanks every cell.
    pub fn reset(&mut self)
        requires
            old(self).wf(),
        ensures
            final(self).wf(),
            final(self).width == old(self).width,
            final(self).height == old(self).height,
            forall|i: int| 0 <= i < final(self).cells().len() ==> #[trigger] final(self).cells()[i] == blank(),
    {
        let n = self.content.len();
        let mut i: usize = 0;
        while i < n
            invariant
                i <= n,
                self.content@.len() == n,
                n == self.width * self.height,
                self.width == old(self).width,
                self.height == old(self).height,
                forall|k: int| 0 <= k < i ==> #[trigger] self.content@[k]@ == blank(),
            decreases n - i,
        {
            self.content[i].reset();
            i += 1;
        }
    }

    /// The position of column `x` of row `y`; the coordinates must lie in the grid.
    pub fn index_of(&self, x: u16, y: u16) -> (r: usize)
        requires
            self.wf(),
            x < self.width,
            y < self.height,
        ensures
            r == self.index_spec(x as int, y as int),
            r < self.content@.len(),
    {
        proof {
            let (w, h) = (self.width as int, self.height as int);
            assert(y * w + x < w * h) by (nonlinear_arith)
                requires
                    x < w,
                    y < h,
            ;
            assert(w * h <= 0xffff * 0xffff) by (nonlinear_arith)
                requires
                    0 <= w <= 0xffff,
                    0 <= h <= 0xffff,
            ;
        }
        y as usize * self.width as usize + x as usize
    }

    /// The column and the row of position `i`, which must lie in the grid.
    pub fn pos_of(&self, i: usize) -> (r: (u16, u16))
        requires
            self.wf(),
            i < self.content@.len(),
        ensures
            r.0 == (i as int) % (self.width as int),
            r.1 == (i as int) / (self.width as int),
            r.0 < self.width,
            r.1 < self.height,
    {
        let w = self.width as usize;
        proof {
            let (wi, h, ii) = (self.width as int, self.height as int, i as int);
            assert(wi > 0) by (nonlinear_arith)
                requires
                    ii < wi * h,
                    h >= 0,
                    ii >= 0,
            ;
            assert(ii / wi < h) by (nonlinear_arith)
                requires
                    ii < wi * h,
                    wi > 0,
                    ii >= 0,
            ;
            assert(ii % wi < wi) by (nonlinear_arith)
                requires
                    wi > 0,
            ;
        }
        ((i % w) as u16, (i / w) as u16)
    }

    /// Writes the graphemes of `string` from column `x` of row `y`, up to
    /// column `min(width, x + max_width)`, with `style` applied to each cell
    /// written. Returns the position after the last grapheme written.
    pub fn set_stringn(&mut self, x: u16, y: u16, string: &str, max_width: usize, style: Style) -> (r: (u16, u16))
        requires
            old(self).wf(),
            x < old(self).width,
            y < old(self).height,
        ensures
            final(self).wf(),
            final(self).width == old(self).width,
            final(self).height == old(self).height,
            (final(self).cells(), r.0 as int) == place(
                old(self).cells(),
                old(self).index_spec(x as int, y as int),
                x as int,
                min_int(old(self).width as int, x + max_width),
                graphemes_of(string@),
                style,
            ),
            r.1 == y,
            x <= r.0 <= min_int(old(self).width as int, x + max_width),
            forall|i: int|
                0 <= i < final(self).cells().len() && !(old(self).index_spec(x as int, y as int) <= i
                    < old(self).index_spec(r.0 as int, y as int)) ==> #[trigger] final(self).cells()[i]
                    == old(self).cells()[i],
    {
        let ghost old_cells = self.cells();
        let ghost gs = graphemes_of(string@);
        let start = self.index_of(x, y);
        let mut index = start;
        let mut x_offset: usize = x as usize;
        let graphemes = graphemes(string);
        let wide = self.width as usize;
        let reach = max_width.saturating_add(x as usize);
        let max_offset = if wide < reach { wide } else { reach };
        let ghost target = place(old_cells, start as int, x as int, max_offset as int, gs, style);
        proof {
            let (w, h, yy) = (self.width as int, self.height as int, y as int);
            assert(yy * w + w <= w * h) by (nonlinear_arith)
                requires
                    yy < h,
                    0 <= w,
            ;
            lemma_place_bounds(old_cells, start as int, x as int, max_offset as int, gs, style);
        }
        let total = self.content.len();
        let mut i: usize = 0;
        let mut done = false;
        assert(gs.skip(0) =~= gs);
        while i < graphemes.len() && !done
            invariant
                self.wf(),
                self.width == old(self).width,
                self.height == old(self).height,
                graphemes@.len() == gs.len(),
                forall|k: int| 0 <= k < graphemes@.len() ==> #[trigger] graphemes@[k]@ == gs[k],
                i <= graphemes@.len(),
                x <= x_offset <= max_offset <= self.width,
                index == start + (x_offset - x),
                start == y * self.width + x,
                y * self.width + self.width <= self.content@.len(),
                self.content@.len() == total,
                place(self.cells(), index as int, x_offset as int, max_offset as int, gs.skip(i as int), style)
                    == target,
                done ==> target == (self.cells(), x_offset as int),
            decreases graphemes@.len() - i, if done { 0int } else { 1int },
        {
            let g = &graphemes[i];
            let width = display_width(g.as_str());
            let ghost cur = self.cells();
            assert(gs.skip(i as int)[0] == gs[i as int]);
            assert(gs.skip(i as int).drop_first() =~= gs.skip(i + 1));
            if width == 0 {
                i += 1;
            } else if width > max_offset - x_offset {
                done = true;
            } else {
                self.content[index].set_symbol(g.as_str());
                self.content[index].set_style(style);
                let ghost put = cur.update(
                    index as int,
                    styled(CellView { symbol: gs[i as int], ..cur[index as int] }, style),
                );
                assert(self.cells() =~= put);
                assert(index + width <= self.content@.len());
                let end = index + width;
                let mut j = index + 1;
                while j < end
                    invariant
                        index < j <= end,
                        end <= self.content@.len(),
                        put.len() == self.content@.len(),
                        self.wf(),
                        self.width == old(self).width,
                        self.height == old(self).height,
                        self.cells() =~= blank_range(put, index + 1, j as int),
                    decreases end - j,
                {
                    let ghost before = self.content@;
                    let ghost cells_before = self.cells();
                    self.content[j].reset();
                    assert(self.content@ == before.update(j as int, self.content@[j as int]));
                    assert(self.content@[j as int]@ == blank());
                    assert forall|k: int| 0 <= k < self.content@.len() implies #[trigger] self.cells()[k]
                        == blank_range(put, index + 1, j + 1)[k] by {
                        assert(self.cells()[k] == self.content@[k]@);
                        assert(cells_before[k] == before[k]@);
                        assert(cells_before[k] == blank_range(put, index + 1, j as int)[k]);
                    }
                    j += 1;
                }
                index = end;
                x_offset += width;
                i += 1;
            }
        }
        (x_offset as u16, y)
    }

    /// Writes the graphemes of `string` from column `x` of row `y` to the
    /// right edge of the grid, with `style` applied to each cell written.
    pub fn set_string(&mut self, x: u16, y: u16, string: &str, style: Style)
        requires
            old(self).wf(),
            x < old(self).width,
            y < old(self).height,
        ensures
            final(self).wf(),
            final(self).width == old(self).width,
            final(self).height == old(self).height,
            final(self).cells() == place(
                old(self).cells(),
                old(self).index_spec(x as int, y as int),
                x as int,
                old(self).width as int,
                graphemes_of(string@),
                style,
            ).0,
    {
        let r = self.set_stringn(x, y, string, usize::MAX, style);
        assert(min_int(old(self).width as int, x + usize::MAX) == old(self).width as int);
    }


    /// The cells that are drawn, with their columns and rows, in row-by-row
    /// order: every cell that is not marked to skip.
    pub fn draw(&self) -> (r: Vec<(u16, u16, Cell)>)
        requires
            self.wf(),
        ensures
            entries_view(r@) == visible_entries(self.cells(), self.width as int, self.cells().len() as int),
    {
        let n = self.content.len();
        let mut r: Vec<(u16, u16, Cell)> = Vec::new();
        let mut i: usize = 0;
        while i < n
            invariant
                self.wf(),
                n == self.content@.len(),
                i <= n,
                entries_view(r@) == visible_entries(self.cells(), self.width as int, i as int),
            decreases n - i,
        {
            if !self.content[i].skip {
                let (x, y) = self.pos_of(i);
                let ghost before = r@;
                r.push((x, y, self.content[i].clone()));
                assert(entries_view(r@) =~= entries_view(before).push(
                    ((i as int) % (self.width as int), (i as int) / (self.width as int), self.cells()[i as int]),
                ));
            }
            i += 1;
        }
        r
    }

    /// The changes from `self`, the grid shown before, to `other`, the grid to
    /// show: each position where their cells differ, in ascending order, with
    /// its column, its row and the cell of `other`.
    pub fn diff(&self, other: &Buffer) -> (r: Vec<(u16, u16, Cell)>)
        requires
            self.wf(),
            other.wf(),
            self.width == other.width,
            self.height == other.height,
        ensures
            entries_view(r@) == diff_entries(
                self.cells(),
                other.cells(),
                other.width as int,
                other.cells().len() as int,
            ),
    {
        let n = self.content.len();
        let mut r: Vec<(u16, u16, Cell)> = Vec::new();
        let mut i: usize = 0;
        while i < n
            invariant
                self.wf(),
                other.wf(),
                self.width == other.width,
                self.height == other.height,
                n == self.content@.len(),
                n == other.content@.len(),
                i <= n,
                entries_view(r@) == diff_entries(self.cells(), other.cells(), other.width as int, i as int),
            decreases n - i,
        {
            if !self.content[i].eq(&other.content[i]) {
                let (x, y) = other.pos_of(i);
                let ghost before = r@;
                r.push((x, y, other.content[i].clone()));
                assert(entries_view(r@) =~= entries_view(before).push(
                    ((i as int) % (other.width as int), (i as int) / (other.width as int), other.cells()[i as int]),
                ));
            }
            i += 1;
        }
        r
    }


    /// Writes each line of `string` from column `x`, the first in row `y` and
    /// each next one a row further down. The column must lie in the grid, as
    /// for every write. Lines below the last row are left out, as columns past
    /// the right edge are left out by `set_string`: text is cut at the grid's
    /// edges, which callers rely on to write text of any length, while a
    /// coordinate outside the grid is a caller's error that `requires` rules out.
    pub fn set_lines(&mut self, x: u16, y: u16, string: &str, style: Style)
        requires
            old(self).wf(),
            x < old(self).width,
        ensures
            final(self).wf(),
            final(self).width == old(self).width,
            final(self).height == old(self).height,
            final(self).cells() == place_lines(
                old(self).cells(),
                old(self).width as int,
                old(self).height as int,
                x as int,
                y as int,
                split_lines(string@),
                style,
            ),
    {
        let ls = lines(string);
        let ghost lv = split_lines(string@);
        let ghost target = place_lines(
            self.cells(),
            self.width as int,
            self.height as int,
            x as int,
            y as int,
            lv,
            style,
        );
        assert(lv.skip(0) =~= lv);
        let mut i: usize = 0;
        let mut row = y;
        let mut done = false;
        while i < ls.len() && !done
            invariant
                self.wf(),
                self.width == old(self).width,
                self.height == old(self).height,
                x < self.width,
                ls@.len() == lv.len(),
                forall|k: int| 0 <= k < ls@.len() ==> #[trigger] ls@[k]@ == lv[k],
                i <= ls@.len(),
                row == y + i,
                place_lines(
                    self.cells(),
                    self.width as int,
                    self.height as int,
                    x as int,
                    row as int,
                    lv.skip(i as int),
                    style,
                ) == target,
                done ==> target == self.cells(),
            decreases ls@.len() - i, if done { 0int } else { 1int },
        {
            if row >= self.height {
                done = true;
            } else {
                assert(lv.skip(i as int)[0] == lv[i as int]);
                assert(lv.skip(i as int).drop_first() =~= lv.skip(i + 1));
                self.set_string(x, row, ls[i].as_str(), style);
                i += 1;
                if row < u16::MAX {
                    row += 1;
                } else {
                    done = true;
                }
            }
        }
    }

    /// Applies `style` to every cell of `area`, which must lie in the grid,
    /// keeping the graphemes.
    pub fn set_style(&mut self, area: Rect, style: Style)
        requires
            old(self).wf(),
            area.x + area.width <= old(self).width,
            area.y + area.height <= old(self).height,
        ensures
            final(self).wf(),
            final(self).width == old(self).width,
            final(self).height == old(self).height,
            forall|i: int|
                0 <= i < final(self).cells().len() ==> #[trigger] final(self).cells()[i] == if in_rect(
                    i % (old(self).width as int),
                    i / (old(self).width as int),
                    area,
                ) {
                    styled(old(self).cells()[i], style)
                } else {
                    old(self).cells()[i]
                },
    {
        let n = self.content.len();
        let ghost before = self.cells();
        let mut i: usize = 0;
        while i < n
            invariant
                self.wf(),
                self.width == old(self).width,
                self.height == old(self).height,
                n == self.content@.len(),
                before == old(self).cells(),
                i <= n,
                forall|k: int|
                    0 <= k < n ==> #[trigger] self.cells()[k] == if k < i && in_rect(
                        k % (self.width as int),
                        k / (self.width as int),
                        area,
                    ) {
                        styled(before[k], style)
                    } else {
                        before[k]
                    },
            decreases n - i,
        {
            let (cx, cy) = self.pos_of(i);
            if area.x <= cx && cx - area.x < area.width && area.y <= cy && cy - area.y < area.height {
                let ghost prev = self.cells();
                self.content[i].set_style(style);
                assert forall|k: int| 0 <= k < n implies #[trigger] self.cells()[k] == if k < i + 1
                    && in_rect(k % (self.width as int), k / (self.width as int), area) {
                    styled(before[k], style)
                } else {
                    before[k]
                } by {
                    assert(prev[k] == self.content@[k]@ || k == i);
                }
            }
            i += 1;
        }
    }

    /// Copies every cell of `other` into this grid, its top left corner at
    /// column `x` of row `y`; `other` must fit.
    pub fn insert(&mut self, x: u16, y: u16, other: &Buffer)
        requires
            old(self).wf(),
            other.wf(),
            x + other.width <= old(self).width,
            y + other.height <= old(self).height,
        ensures
            final(self).wf(),
            final(self).width == old(self).width,
            final(self).height == old(self).height,
            forall|i: int|
                0 <= i < final(self).cells().len() ==> #[trigger] final(self).cells()[i] == if in_rect(
                    i % (old(self).width as int),
                    i / (old(self).width as int),
                    Rect { x, y, width: other.width, height: other.height },
                ) {
                    other.cells()[other.index_spec(
                        i % (old(self).width as int) - x,
                        i / (old(self).width as int) - y,
                    )]
                } else {
                    old(self).cells()[i]
                },
    {
        let n = self.content.len();
        let ghost before = self.cells();
        let ghost area = Rect { x, y, width: other.width, height: other.height };
        let mut i: usize = 0;
        while i < n
            invariant
                self.wf(),
                other.wf(),
                x + other.width <= self.width,
                y + other.height <= self.height,
                self.width == old(self).width,
                self.height == old(self).height,
                n == self.content@.len(),
                before == old(self).cells(),
                area == (Rect { x, y, width: other.width, height: other.height }),
                i <= n,
                forall|k: int|
                    0 <= k < n ==> #[trigger] self.cells()[k] == if k < i && in_rect(
                        k % (self.width as int),
                        k / (self.width as int),
                        area,
                    ) {
                        other.cells()[other.index_spec(k % (self.width as int) - x, k / (self.width as int) - y)]
                    } else {
                        before[k]
                    },
            decreases n - i,
        {
            let (cx, cy) = self.pos_of(i);
            if x <= cx && cx - x < other.width && y <= cy && cy - y < other.height {
                let j = other.index_of(cx - x, cy - y);
                let ghost prev = self.cells();
                let c = other.content[j].clone();
                assert(c@ == other.content@[j as int]@);
                self.content.set(i, c);
                assert(self.content@[i as int] == c);
                assert forall|k: int| 0 <= k < n implies #[trigger] self.cells()[k] == if k < i + 1
                    && in_rect(k % (self.width as int), k / (self.width as int), area) {
                    other.cells()[other.index_spec(k % (self.width as int) - x, k / (self.width as int) - y)]
                } else {
                    before[k]
                } by {
                    assert(prev[k] == self.content@[k]@ || k == i);
                    if k == i {
                        assert(self.cells()[k] == self.content@[k]@);
                        assert(other.cells()[j as int] == other.content@[j as int]@);
                    }
                }
            }
            i += 1;
        }
    }

}

} // verus!
