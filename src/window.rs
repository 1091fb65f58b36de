//! Rectangles and bordered windows.

use crate::buffer::{
    blank, entries_view, in_rect, insert_spec, min_int, place, place_lines, styled, visible_entries, Buffer,
    Cell, CellView,
};
use crate::text::Style;
use crate::unicode::{graphemes_of, split_lines};
use vstd::prelude::*;

verus! {

/// A rectangle of the grid: its top left corner and its size.
#[derive(Debug, Default, Clone, Copy, PartialEq, Eq, Structural, Hash)]
pub struct Rect {
    pub x: u16,
    pub y: u16,
    pub width: u16,
    pub height: u16,
}

/// `v` moved by `d`, held within the range of `u16`.
pub open spec fn saturating_add_signed(v: u16, d: i16) -> u16 {
    if v + d < 0 {
        0
    } else if v + d > u16::MAX {
        u16::MAX
    } else {
        (v + d) as u16
    }
}

/// `v + d` held within the range of `u16`.
pub fn add_signed(v: u16, d: i16) -> (r: u16)
    ensures
        r == saturating_add_signed(v, d),
{
    let s: i32 = v as i32 + d as i32;
    if s < 0 {
        0
    } else if s > 0xffff {
        0xffff
    } else {
        s as u16
    }
}

impl Rect {
    pub fn new(x: u16, y: u16, width: u16, height: u16) -> (r: Rect)
        ensures
            r == (Rect { x, y, width, height }),
    {
        Rect { x, y, width, height }
    }

    /// The number of cells; the rectangle must hold fewer than 65536.
    pub fn area(&self) -> (r: u16)
        requires
            self.width * self.height <= u16::MAX,
        ensures
            r == self.width * self.height,
    {
        self.width * self.height
    }

    pub fn left(self) -> (r: u16)
        ensures
            r == self.x,
    {
        self.x
    }

    /// The column past the right edge, held at the largest column.
    pub fn right(self) -> (r: u16)
        ensures
            r == if self.x + self.width > u16::MAX {
                u16::MAX as int
            } else {
                self.x + self.width
            },
    {
        self.x.saturating_add(self.width)
    }

    pub fn top(self) -> (r: u16)
        ensures
            r == self.y,
    {
        self.y
    }

    /// The row past the bottom edge, held at the largest row.
    pub fn bottom(self) -> (r: u16)
        ensures
            r == if self.y + self.height > u16::MAX {
                u16::MAX as int
            } else {
                self.y + self.height
            },
    {
        self.y.saturating_add(self.height)
    }
}

/// What a window's content declares of its scroll indicator: whether to show
/// one, and how far down it stands, in thousandths.
#[derive(Debug, Default, Clone, Copy, PartialEq, Eq, Structural, Hash)]
pub struct ContentInfo {
    pub show_scrollbar: bool,
    pub scroll_permille: u16,
}

/// The row of the scrollbar's thumb below the top of its track, for an
/// interior of the given height.
pub open spec fn thumb_row(interior_height: int, scroll_permille: u16) -> int {
    let span = if interior_height >= 4 {
        interior_height - 4
    } else {
        0
    };
    let p = if scroll_permille > 1000 {
        1000
    } else {
        scroll_permille as int
    };
    span * p / 1000
}

/// The border glyph of a window over `area` at column `cx` of row `cy`, if
/// any: corners, horizontal rules along the top and bottom edges but for the
/// title's columns before `title_end`, vertical rules along the sides, and,
/// where the content asks for one, a scrollbar on the right edge with arrows
/// at its ends and a thumb on its track.
pub open spec fn border_glyph(area: Rect, info: ContentInfo, title_end: int, cx: int, cy: int) -> Option<char> {
    let dx = cx - area.x;
    let dy = cy - area.y;
    let w = area.width as int;
    let h = area.height as int;
    if dx < 0 || dy < 0 || dx >= w || dy >= h {
        None
    } else if dy == 0 {
        if dx == 0 {
            Some('╭')
        } else if dx == w - 1 {
            Some('╮')
        } else if cx < title_end {
            None
        } else {
            Some('─')
        }
    } else if dy == h - 1 {
        if dx == 0 {
            Some('╰')
        } else if dx == w - 1 {
            Some('╯')
        } else {
            Some('─')
        }
    } else if dx == 0 {
        Some('│')
    } else if dx == w - 1 {
        if !info.show_scrollbar {
            Some('│')
        } else if dy == 1 {
            Some('▲')
        } else if dy == h - 2 {
            Some('▼')
        } else if dy == 2 + thumb_row(h - 2, info.scroll_permille) {
            Some('█')
        } else {
            Some('░')
        }
    } else {
        None
    }
}

/// The border glyph at column `cx` of row `cy`; see `border_glyph`.
pub fn glyph_at(area: Rect, info: ContentInfo, title_end: u16, cx: u16, cy: u16) -> (r: Option<char>)
    requires
        area.width >= 3,
        area.height >= 3,
    ensures
        r == border_glyph(area, info, title_end as int, cx as int, cy as int),
{
    if cx < area.x || cy < area.y {
        return None;
    }
    let dx = cx - area.x;
    let dy = cy - area.y;
    let w = area.width;
    let h = area.height;
    if dx >= w || dy >= h {
        None
    } else if dy == 0 {
        if dx == 0 {
            Some('╭')
        } else if dx == w - 1 {
            Some('╮')
        } else if cx < title_end {
            None
        } else {
            Some('─')
        }
    } else if dy == h - 1 {
        if dx == 0 {
            Some('╰')
        } else if dx == w - 1 {
            Some('╯')
        } else {
            Some('─')
        }
    } else if dx == 0 {
        Some('│')
    } else if dx == w - 1 {
        if !info.show_scrollbar {
            Some('│')
        } else if dy == 1 {
            Some('▲')
        } else if dy == h - 2 {
            Some('▼')
        } else {
            let ih: u32 = (h - 2) as u32;
            let span: u32 = if ih >= 4 { ih - 4 } else { 0 };
            let p: u32 = if info.scroll_permille > 1000 { 1000 } else { info.scroll_permille as u32 };
            assert(span * p <= 0xffff * 1000) by (nonlinear_arith)
                requires
                    span <= 0xffff,
                    p <= 1000,
            ;
            let thumb: u32 = span * p / 1000;
            if dy as u32 == 2 + thumb {
                Some('█')
            } else {
                Some('░')
            }
        }
    } else {
        None
    }
}

/// `cells`, of a grid of the given `width`, with the border of a window
/// over `area` drawn on them: first its title from the second column of the
/// top edge, then the border glyphs around it.
pub open spec fn bordered(cells: Seq<CellView>, width: int, area: Rect, info: ContentInfo, title: Seq<char>) -> Seq<
    CellView,
> {
    let t = place(
        cells,
        area.y * width + area.x + 1,
        area.x + 1,
        area.x + 1 + (area.width - 2),
        graphemes_of(title),
        Style::new_spec(),
    );
    Seq::new(
        cells.len(),
        |i: int|
            match border_glyph(area, info, t.1, i % width, i / width) {
                Some(ch) => CellView { symbol: seq![ch], ..t.0[i] },
                None => t.0[i],
            },
    )
}

/// A bordered region of the screen: its title, its place and size, the grid
/// of its interior, one cell smaller on each side, and what its content last
/// declared of the scroll indicator.
#[derive(Debug)]
pub struct Window {
    pub title: String,
    pub area: Rect,
    pub buffer: Buffer,
    pub info: ContentInfo,
}

impl Window {
    /// The area leaves room for the border, and the interior grid is one cell
    /// smaller than the area on each side.
    pub open spec fn wf(&self) -> bool {
        &&& self.area.width >= 3
        &&& self.area.height >= 3
        &&& self.buffer.wf()
        &&& self.buffer.width == self.area.width - 2
        &&& self.buffer.height == self.area.height - 2
    }

    /// Whether the window, border included, lies within a grid of the given size.
    pub open spec fn fits(&self, width: int, height: int) -> bool {
        self.area.x + self.area.width <= width && self.area.y + self.area.height <= height
    }

    /// A window over `area`, with a blank interior and no scroll indicator;
    /// the area must be at least three cells wide and high.
    pub fn new(title: &str, area: Rect) -> (r: Window)
        requires
            area.width >= 3,
            area.height >= 3,
        ensures
            r.wf(),
            r.title@ == title@,
            r.area == area,
            r.info == (ContentInfo { show_scrollbar: false, scroll_permille: 0 }),
            forall|i: int| 0 <= i < r.buffer.cells().len() ==> #[trigger] r.buffer.cells()[i] == blank(),
    {
        Window {
            title: title.to_owned(),
            area,
            buffer: Buffer::empty(area.width - 2, area.height - 2),
            info: ContentInfo { show_scrollbar: false, scroll_permille: 0 },
        }
    }

    /// Changes the size, at least three cells each way, and the interior
    /// grid with it: the cells that remain keep their place in row-by-row
    /// order and those added are blank. The content lives outside the
    /// library, so it is the caller that then has it draw the interior
    /// afresh; the window manager asks for that with
    /// `LoopAction::RedrawFocused`.
    pub fn resize(&mut self, width: u16, height: u16)
        requires
            old(self).wf(),
            width >= 3,
            height >= 3,
        ensures
            final(self).wf(),
            final(self).area == (Rect { width, height, ..old(self).area }),
            final(self).title == old(self).title,
            final(self).info == old(self).info,
            forall|i: int|
                0 <= i < final(self).buffer.cells().len() ==> #[trigger] final(self).buffer.cells()[i] == if i
                    < old(self).buffer.cells().len() {
                    old(self).buffer.cells()[i]
                } else {
                    blank()
                },
    {
        self.area.width = width;
        self.area.height = height;
        self.buffer.resize(width - 2, height - 2);
    }

    /// Changes the size by signed amounts. Like a move, a change of size
    /// saturates instead of failing: at the largest size, and at three cells,
    /// the least that leaves room for the border and an interior. A key that
    /// shrinks a window as far as it goes then does nothing, rather than
    /// stopping the program.
    pub fn resize_by(&mut self, width: i16, height: i16)
        requires
            old(self).wf(),
        ensures
            final(self).wf(),
            final(self).area.x == old(self).area.x,
            final(self).area.y == old(self).area.y,
            final(self).area.width == if saturating_add_signed(old(self).area.width, width) < 3 {
                3
            } else {
                saturating_add_signed(old(self).area.width, width)
            },
            final(self).area.height == if saturating_add_signed(old(self).area.height, height) < 3 {
                3
            } else {
                saturating_add_signed(old(self).area.height, height)
            },
            final(self).title == old(self).title,
            final(self).info == old(self).info,
            forall|i: int|
                0 <= i < final(self).buffer.cells().len() ==> #[trigger] final(self).buffer.cells()[i] == if i
                    < old(self).buffer.cells().len() {
                    old(self).buffer.cells()[i]
                } else {
                    blank()
                },
    {
        let w = add_signed(self.area.width, width);
        let h = add_signed(self.area.height, height);
        self.resize(if w < 3 { 3 } else { w }, if h < 3 { 3 } else { h });
    }

    /// Blanks the interior.
    pub fn reset(&mut self)
        requires
            old(self).wf(),
        ensures
            final(self).wf(),
            final(self).area == old(self).area,
            final(self).title == old(self).title,
            final(self).info == old(self).info,
            forall|i: int|
                0 <= i < final(self).buffer.cells().len() ==> #[trigger] final(self).buffer.cells()[i] == blank(),
    {
        self.buffer.reset();
    }

    /// Moves the top left corner to column `x` of row `y`.
    pub fn move_to(&mut self, x: u16, y: u16)
        ensures
            *final(self) == (Window { area: Rect { x, y, ..old(self).area }, ..*old(self) }),
    {
        self.area.x = x;
        self.area.y = y;
    }

    /// Moves by signed amounts, held within the range of coordinates.
    pub fn move_by(&mut self, x: i16, y: i16)
        ensures
            *final(self) == (Window {
                area: Rect {
                    x: saturating_add_signed(old(self).area.x, x),
                    y: saturating_add_signed(old(self).area.y, y),
                    ..old(self).area
                },
                ..*old(self)
            }),
    {
        self.area.x = add_signed(self.area.x, x);
        self.area.y = add_signed(self.area.y, y);
    }

    pub fn pos(&self) -> (r: (u16, u16))
        ensures
            r == (self.area.x, self.area.y),
    {
        (self.area.x, self.area.y)
    }

    pub fn width(&self) -> (r: u16)
        ensures
            r == self.area.width,
    {
        self.area.width
    }

    pub fn height(&self) -> (r: u16)
        ensures
            r == self.area.height,
    {
        self.area.height
    }

    /// The width and height of the interior.
    pub fn interior_size(&self) -> (r: (u16, u16))
        requires
            self.wf(),
        ensures
            r == (self.buffer.width, self.buffer.height),
    {
        (self.buffer.width, self.buffer.height)
    }

    /// Takes a new interior grid and scroll declaration from the content.
    /// The grid is taken only if it has the interior's dimensions and its
    /// number of cells matches them; says whether it was taken.
    pub fn set_content(&mut self, buffer: Buffer, info: ContentInfo) -> (r: bool)
        requires
            old(self).wf(),
        ensures
            final(self).wf(),
            r == (buffer.wf() && buffer.width == old(self).buffer.width && buffer.height
                == old(self).buffer.height),
            r ==> final(self).buffer == buffer,
            !r ==> final(self).buffer == old(self).buffer,
            final(self).info == info,
            final(self).area == old(self).area,
            final(self).title == old(self).title,
    {
        self.info = info;
        if buffer.width == self.buffer.width && buffer.height == self.buffer.height
            && buffer.content.len() == buffer.area() {
            self.buffer = buffer;
            true
        } else {
            false
        }
    }

    /// The drawn cells of the interior; see `Buffer::draw`.
    pub fn content_iter(&self) -> (r: Vec<(u16, u16, Cell)>)
        requires
            self.wf(),
        ensures
            entries_view(r@) == visible_entries(
                self.buffer.cells(),
                self.buffer.width as int,
                self.buffer.cells().len() as int,
            ),
    {
        self.buffer.draw()
    }

    /// Writes lines of text into the interior; see `Buffer::set_lines`.
    pub fn set_lines(&mut self, x: u16, y: u16, string: &str, style: Style)
        requires
            old(self).wf(),
            x < old(self).buffer.width,
        ensures
            final(self).wf(),
            final(self).area == old(self).area,
            final(self).title == old(self).title,
            final(self).info == old(self).info,
            final(self).buffer.cells() == place_lines(
                old(self).buffer.cells(),
                old(self).buffer.width as int,
                old(self).buffer.height as int,
                x as int,
                y as int,
                split_lines(string@),
                style,
            ),
    {
        self.buffer.set_lines(x, y, string, style)
    }

    /// Writes text into the interior; see `Buffer::set_string`.
    pub fn set_string(&mut self, x: u16, y: u16, string: &str, style: Style)
        requires
            old(self).wf(),
            x < old(self).buffer.width,
            y < old(self).buffer.height,
        ensures
            final(self).wf(),
            final(self).area == old(self).area,
            final(self).title == old(self).title,
            final(self).info == old(self).info,
            final(self).buffer.cells() == place(
                old(self).buffer.cells(),
                old(self).buffer.index_spec(x as int, y as int),
                x as int,
                old(self).buffer.width as int,
                graphemes_of(string@),
                style,
            ).0,
    {
        self.buffer.set_string(x, y, string, style)
    }

    /// Writes at most `width` columns of text into the interior; see
    /// `Buffer::set_stringn`.
    pub fn set_stringn(&mut self, x: u16, y: u16, string: &str, width: usize, style: Style) -> (r: (u16, u16))
        requires
            old(self).wf(),
            x < old(self).buffer.width,
            y < old(self).buffer.height,
        ensures
            final(self).wf(),
            final(self).area == old(self).area,
            final(self).title == old(self).title,
            final(self).info == old(self).info,
            (final(self).buffer.cells(), r.0 as int) == place(
                old(self).buffer.cells(),
                old(self).buffer.index_spec(x as int, y as int),
                x as int,
                min_int(old(self).buffer.width as int, x + width),
                graphemes_of(string@),
                style,
            ),
            r.1 == y,
    {
        self.buffer.set_stringn(x, y, string, width, style)
    }

    /// Applies a style to an area of the interior; see `Buffer::set_style`.
    pub fn set_style(&mut self, area: Rect, style: Style)
        requires
            old(self).wf(),
            area.x + area.width <= old(self).buffer.width,
            area.y + area.height <= old(self).buffer.height,
        ensures
            final(self).wf(),
            final(self).area == old(self).area,
            final(self).title == old(self).title,
            final(self).info == old(self).info,
            forall|i: int|
                0 <= i < final(self).buffer.cells().len() ==> #[trigger] final(self).buffer.cells()[i]
                    == if in_rect(
                    i % (old(self).buffer.width as int),
                    i / (old(self).buffer.width as int),
                    area,
                ) {
                    styled(old(self).buffer.cells()[i], style)
                } else {
                    old(self).buffer.cells()[i]
                },
    {
        self.buffer.set_style(area, style)
    }

    /// Copies the interior into `parent` inside the border, then draws the
    /// border and title onto `parent`; the window must fit in `parent`.
    pub fn draw(&self, parent: &mut Buffer)
        requires
            self.wf(),
            old(parent).wf(),
            self.fits(old(parent).width as int, old(parent).height as int),
        ensures
            final(parent).wf(),
            final(parent).width == old(parent).width,
            final(parent).height == old(parent).height,
            final(parent).cells() == bordered(
                insert_spec(
                    old(parent).cells(),
                    old(parent).width as int,
                    self.area.x + 1,
                    self.area.y + 1,
                    self.buffer.cells(),
                    self.buffer.width as int,
                    self.buffer.height as int,
                ),
                old(parent).width as int,
                self.area,
                self.info,
                self.title@,
            ),
    {
        let ghost before = parent.cells();
        parent.insert(self.area.x + 1, self.area.y + 1, &self.buffer);
        assert(parent.cells() =~= insert_spec(
            before,
            parent.width as int,
            self.area.x + 1,
            self.area.y + 1,
            self.buffer.cells(),
            self.buffer.width as int,
            self.buffer.height as int,
        ));
        self.draw_border(parent);
    }

    /// Draws the border and the title onto `parent`, which the window must fit in.
    pub fn draw_border(&self, parent: &mut Buffer)
        requires
            self.wf(),
            old(parent).wf(),
            self.fits(old(parent).width as int, old(parent).height as int),
        ensures
            final(parent).wf(),
            final(parent).width == old(parent).width,
            final(parent).height == old(parent).height,
            final(parent).cells() == bordered(
                old(parent).cells(),
                old(parent).width as int,
                self.area,
                self.info,
                self.title@,
            ),
    {
        let area = self.area;
        let ghost before = parent.cells();
        let (end, _) = parent.set_stringn(
            area.x + 1,
            area.y,
            self.title.as_str(),
            (area.width - 2) as usize,
            Style::new(),
        );
        let ghost t = place(
            before,
            area.y * parent.width + area.x + 1,
            area.x + 1,
            area.x + 1 + (area.width - 2),
            graphemes_of(self.title@),
            Style::new_spec(),
        );
        assert(crate::buffer::min_int(parent.width as int, area.x + 1 + (area.width - 2)) == area.x + 1
            + (area.width - 2));
        assert(t.1 == end);
        let n = parent.content.len();
        let mut i: usize = 0;
        while i < n
            invariant
                parent.wf(),
                parent.width == old(parent).width,
                parent.height == old(parent).height,
                n == parent.content@.len(),
                t.0.len() == n,
                area.width >= 3,
                area.height >= 3,
                i <= n,
                forall|k: int|
                    0 <= k < n ==> #[trigger] parent.cells()[k] == if k < i {
                        match border_glyph(area, self.info, end as int, k % (parent.width as int), k / (parent.width as int)) {
                            Some(ch) => CellView { symbol: seq![ch], ..t.0[k] },
                            None => t.0[k],
                        }
                    } else {
                        t.0[k]
                    },
            decreases n - i,
        {
            let (cx, cy) = parent.pos_of(i);
            let g = glyph_at(area, self.info, end, cx, cy);
            if let Some(ch) = g {
                let ghost prev = parent.cells();
                parent.content[i].set_char(ch);
                assert forall|k: int| 0 <= k < n implies #[trigger] parent.cells()[k] == if k < i + 1 {
                    match border_glyph(area, self.info, end as int, k % (parent.width as int), k / (parent.width as int)) {
                        Some(ch) => CellView { symbol: seq![ch], ..t.0[k] },
                        None => t.0[k],
                    }
                } else {
                    t.0[k]
                } by {
                    assert(prev[k] == parent.content@[k]@ || k == i);
                }
            }
            i += 1;
        }
        assert(parent.cells() =~= bordered(before, parent.width as int, area, self.info, self.title@));
    }
}

} // verus!
