//! The abstract commands sent to a terminal, the minimal emphasis changes
//! between two cells, and the translation of cell changes into commands.

use crate::buffer::{
    entries_view, lemma_visible_entries_in_grid, visible_entries, Buffer, Cell, CellView,
};
use crate::window::Window;
use crate::text::{
    has, Color, Modifier, BOLD, CROSSED_OUT, DIM, ITALIC, RAPID_BLINK, REVERSED, SLOW_BLINK,
    UNDERLINED,
};
use vstd::prelude::*;

verus! {

/// An emphasis directive for the terminal.
#[derive(Debug, Clone, Copy, PartialEq, Eq, Structural, Hash)]
pub enum Attribute {
    Reset,
    Bold,
    Dim,
    Italic,
    Underlined,
    SlowBlink,
    RapidBlink,
    Reverse,
    CrossedOut,
    NormalIntensity,
    NoItalic,
    NoUnderline,
    NoBlink,
    NoReverse,
    NotCrossedOut,
}

/// A command for the terminal.
#[derive(Debug, Clone, PartialEq, Eq)]
pub enum Command {
    MoveTo(u16, u16),
    SetForeground(Color),
    SetBackground(Color),
    SetAttribute(Attribute),
    Print(String),
}

/// A command, with the text to print as characters.
pub enum CommandView {
    MoveTo(int, int),
    SetForeground(Color),
    SetBackground(Color),
    SetAttribute(Attribute),
    Print(Seq<char>),
}

impl View for Command {
    type V = CommandView;

    open spec fn view(&self) -> CommandView {
        match self {
            Command::MoveTo(x, y) => CommandView::MoveTo(*x as int, *y as int),
            Command::SetForeground(c) => CommandView::SetForeground(*c),
            Command::SetBackground(c) => CommandView::SetBackground(*c),
            Command::SetAttribute(a) => CommandView::SetAttribute(*a),
            Command::Print(s) => CommandView::Print(s@),
        }
    }
}

/// The views of a list of commands.
pub open spec fn commands_view(v: Seq<Command>) -> Seq<CommandView> {
    v.map_values(|c: Command| c@)
}

/// One directive for each attribute, in order.
pub open spec fn attribute_commands(attrs: Seq<Attribute>) -> Seq<CommandView> {
    attrs.map_values(|a: Attribute| CommandView::SetAttribute(a))
}

/// `a` alone if `cond` holds, else nothing.
#[verifier::opaque]
pub open spec fn attr_if(cond: bool, a: Attribute) -> Seq<Attribute> {
    if cond {
        seq![a]
    } else {
        seq![]
    }
}

/// The directives that turn the emphasis flags `from` into `to`: first one
/// switch-off for each flag removed, in the order reverse, bold, italic,
/// underline, dim, crossed out, blink, where switching bold off switches dim
/// back on if `to` keeps it, as both share one intensity; then one
/// switch-on for each flag added, in the same order.
pub open spec fn modifier_diff_spec(from: u16, to: u16) -> Seq<Attribute> {
    removal_directives(from & !to, to) + addition_directives(to & !from)
}

/// The switch-offs for the flags `removed`, given the flags `to` that stay.
pub open spec fn removal_directives(removed: u16, to: u16) -> Seq<Attribute> {
    attr_if(has(removed, REVERSED), Attribute::NoReverse)
        + attr_if(has(removed, BOLD), Attribute::NormalIntensity)
        + attr_if(has(removed, BOLD) && has(to, DIM), Attribute::Dim)
        + attr_if(has(removed, ITALIC), Attribute::NoItalic)
        + attr_if(has(removed, UNDERLINED), Attribute::NoUnderline)
        + attr_if(has(removed, DIM), Attribute::NormalIntensity)
        + attr_if(has(removed, CROSSED_OUT), Attribute::NotCrossedOut)
        + attr_if(has(removed, SLOW_BLINK) || has(removed, RAPID_BLINK), Attribute::NoBlink)
}

/// The switch-ons for the flags `added`.
pub open spec fn addition_directives(added: u16) -> Seq<Attribute> {
    attr_if(has(added, REVERSED), Attribute::Reverse)
        + attr_if(has(added, BOLD), Attribute::Bold)
        + attr_if(has(added, ITALIC), Attribute::Italic)
        + attr_if(has(added, UNDERLINED), Attribute::Underlined)
        + attr_if(has(added, DIM), Attribute::Dim)
        + attr_if(has(added, CROSSED_OUT), Attribute::CrossedOut)
        + attr_if(has(added, SLOW_BLINK), Attribute::SlowBlink)
        + attr_if(has(added, RAPID_BLINK), Attribute::RapidBlink)
}

/// Appends a command.
pub fn emit(out: &mut Vec<Command>, c: Command)
    ensures
        commands_view(final(out)@) == commands_view(old(out)@).push(c@),
{
    let ghost before = out@;
    out.push(c);
    assert(commands_view(out@) =~= commands_view(before).push(c@));
}

/// Appends an emphasis directive if `cond` holds, after the directives of
/// `prefix` that follow `start`.
fn emit_attribute_when(
    out: &mut Vec<Command>,
    Ghost(start): Ghost<Seq<CommandView>>,
    Ghost(prefix): Ghost<Seq<Attribute>>,
    cond: bool,
    a: Attribute,
)
    requires
        commands_view(old(out)@) == start + attribute_commands(prefix),
    ensures
        commands_view(final(out)@) == start + attribute_commands(prefix + attr_if(cond, a)),
{
    reveal(attr_if);
    if cond {
        emit(out, Command::SetAttribute(a));
    }
    assert(attribute_commands(prefix + attr_if(cond, a)) =~= attribute_commands(prefix) + attribute_commands(
        attr_if(cond, a),
    ));
    assert(commands_view(out@) =~= start + attribute_commands(prefix + attr_if(cond, a)));
}

/// No directive turns a set of flags into itself.
pub proof fn lemma_modifier_diff_same(f: u16)
    ensures
        modifier_diff_spec(f, f) == Seq::<Attribute>::empty(),
{
    reveal(attr_if);
    assert(f & !f == 0) by (bit_vector);
    assert forall|flag: u16| flag != 0 implies has(0, flag) == false by {
        assert(flag != 0 ==> 0u16 & flag != flag) by (bit_vector);
    }
    assert(modifier_diff_spec(f, f) =~= Seq::<Attribute>::empty());
}

/// The change of emphasis flags from one cell to the next.
#[derive(Debug, Default, Clone, Copy, PartialEq, Eq, Structural, Hash)]
pub struct ModifierDiff {
    pub from: Modifier,
    pub to: Modifier,
}

impl ModifierDiff {
    /// Appends the directives that turn the flags `from` into `to`.
    pub fn queue(&self, out: &mut Vec<Command>)
        ensures
            commands_view(final(out)@) == commands_view(old(out)@) + attribute_commands(
                modifier_diff_spec(self.from.bits, self.to.bits),
            ),
            self.from == self.to ==> commands_view(final(out)@) == commands_view(old(out)@),
    {
        let ghost start = commands_view(out@);
        let removed = self.from.difference(self.to);
        let added = self.to.difference(self.from);
        queue_removals(out, Ghost(start), removed, self.to);
        queue_additions(out, Ghost(start), Ghost(removal_directives(removed.bits, self.to.bits)), added);
        proof {
            let p = modifier_diff_spec(self.from.bits, self.to.bits);
            if self.from == self.to {
                lemma_modifier_diff_same(self.from.bits);
                assert(attribute_commands(p) =~= Seq::<CommandView>::empty());
            }
        }
    }
}

/// Appends the switch-offs for the flags `removed`, given the flags `to`.
fn queue_removals(out: &mut Vec<Command>, Ghost(start): Ghost<Seq<CommandView>>, removed: Modifier, to: Modifier)
    requires
        commands_view(old(out)@) == start,
    ensures
        commands_view(final(out)@) == start + attribute_commands(removal_directives(removed.bits, to.bits)),
{
    let bold_off = removed.contains(Modifier { bits: BOLD });
    let ghost (r, t) = (removed.bits, to.bits);
    let ghost p = Seq::<Attribute>::empty();
    assert(commands_view(out@) =~= start + attribute_commands(p));
    emit_attribute_when(out, Ghost(start), Ghost(p), removed.contains(Modifier { bits: REVERSED }), Attribute::NoReverse);
    proof {
        p = p + attr_if(has(r, REVERSED), Attribute::NoReverse);
    }
    emit_attribute_when(out, Ghost(start), Ghost(p), bold_off, Attribute::NormalIntensity);
    proof {
        p = p + attr_if(has(r, BOLD), Attribute::NormalIntensity);
    }
    emit_attribute_when(out, Ghost(start), Ghost(p), bold_off && to.contains(Modifier { bits: DIM }), Attribute::Dim);
    proof {
        p = p + attr_if(has(r, BOLD) && has(t, DIM), Attribute::Dim);
    }
    emit_attribute_when(out, Ghost(start), Ghost(p), removed.contains(Modifier { bits: ITALIC }), Attribute::NoItalic);
    proof {
        p = p + attr_if(has(r, ITALIC), Attribute::NoItalic);
    }
    emit_attribute_when(out, Ghost(start), Ghost(p), removed.contains(Modifier { bits: UNDERLINED }), Attribute::NoUnderline);
    proof {
        p = p + attr_if(has(r, UNDERLINED), Attribute::NoUnderline);
    }
    emit_attribute_when(out, Ghost(start), Ghost(p), removed.contains(Modifier { bits: DIM }), Attribute::NormalIntensity);
    proof {
        p = p + attr_if(has(r, DIM), Attribute::NormalIntensity);
    }
    emit_attribute_when(out, Ghost(start), Ghost(p), removed.contains(Modifier { bits: CROSSED_OUT }), Attribute::NotCrossedOut);
    proof {
        p = p + attr_if(has(r, CROSSED_OUT), Attribute::NotCrossedOut);
    }
    emit_attribute_when(out, Ghost(start), Ghost(p), removed.contains(Modifier { bits: SLOW_BLINK }) || removed.contains(Modifier { bits: RAPID_BLINK }), Attribute::NoBlink);
    proof {
        p = p + attr_if(has(r, SLOW_BLINK) || has(r, RAPID_BLINK), Attribute::NoBlink);
    }
    assert(p == removal_directives(removed.bits, to.bits));
}

/// Appends the switch-ons for the flags `added`, after the directives of
/// `prefix` that follow `start`.
fn queue_additions(
    out: &mut Vec<Command>,
    Ghost(start): Ghost<Seq<CommandView>>,
    Ghost(prefix): Ghost<Seq<Attribute>>,
    added: Modifier,
)
    requires
        commands_view(old(out)@) == start + attribute_commands(prefix),
    ensures
        commands_view(final(out)@) == start + attribute_commands(prefix + addition_directives(added.bits)),
{
    let ghost ad = added.bits;
    let ghost p = Seq::<Attribute>::empty();
    assert(prefix + p =~= prefix);
    emit_attribute_when(out, Ghost(start), Ghost(prefix + p), added.contains(Modifier { bits: REVERSED }), Attribute::Reverse);
    proof {
        let x = attr_if(has(ad, REVERSED), Attribute::Reverse);
        assert((prefix + p) + x =~= prefix + (p + x));
        p = p + x;
    }
    emit_attribute_when(out, Ghost(start), Ghost(prefix + p), added.contains(Modifier { bits: BOLD }), Attribute::Bold);
    proof {
        let x = attr_if(has(ad, BOLD), Attribute::Bold);
        assert((prefix + p) + x =~= prefix + (p + x));
        p = p + x;
    }
    emit_attribute_when(out, Ghost(start), Ghost(prefix + p), added.contains(Modifier { bits: ITALIC }), Attribute::Italic);
    proof {
        let x = attr_if(has(ad, ITALIC), Attribute::Italic);
        assert((prefix + p) + x =~= prefix + (p + x));
        p = p + x;
    }
    emit_attribute_when(out, Ghost(start), Ghost(prefix + p), added.contains(Modifier { bits: UNDERLINED }), Attribute::Underlined);
    proof {
        let x = attr_if(has(ad, UNDERLINED), Attribute::Underlined);
        assert((prefix + p) + x =~= prefix + (p + x));
        p = p + x;
    }
    emit_attribute_when(out, Ghost(start), Ghost(prefix + p), added.contains(Modifier { bits: DIM }), Attribute::Dim);
    proof {
        let x = attr_if(has(ad, DIM), Attribute::Dim);
        assert((prefix + p) + x =~= prefix + (p + x));
        p = p + x;
    }
    emit_attribute_when(out, Ghost(start), Ghost(prefix + p), added.contains(Modifier { bits: CROSSED_OUT }), Attribute::CrossedOut);
    proof {
        let x = attr_if(has(ad, CROSSED_OUT), Attribute::CrossedOut);
        assert((prefix + p) + x =~= prefix + (p + x));
        p = p + x;
    }
    emit_attribute_when(out, Ghost(start), Ghost(prefix + p), added.contains(Modifier { bits: SLOW_BLINK }), Attribute::SlowBlink);
    proof {
        let x = attr_if(has(ad, SLOW_BLINK), Attribute::SlowBlink);
        assert((prefix + p) + x =~= prefix + (p + x));
        p = p + x;
    }
    emit_attribute_when(out, Ghost(start), Ghost(prefix + p), added.contains(Modifier { bits: RAPID_BLINK }), Attribute::RapidBlink);
    proof {
        let x = attr_if(has(ad, RAPID_BLINK), Attribute::RapidBlink);
        assert((prefix + p) + x =~= prefix + (p + x));
        p = p + x;
    }
    assert(prefix + p =~= prefix + addition_directives(added.bits)) by {
        assert(p == addition_directives(added.bits));
    }
}

/// What the terminal was last told: colors, emphasis flags and the position
/// of the last grapheme printed.
#[derive(Debug, Clone, Copy)]
pub struct Pen {
    pub fg: Color,
    pub bg: Color,
    pub modifier: Modifier,
    pub last_pos: Option<(u16, u16)>,
}

/// The state at the start of a render pass: default colors, no flags, no
/// position.
pub open spec fn initial_pen() -> Pen {
    Pen { fg: Color::Reset, bg: Color::Reset, modifier: Modifier { bits: 0 }, last_pos: None }
}

/// Whether column `x` of row `y` directly follows the last grapheme printed.
pub open spec fn follows(pen: Pen, x: int, y: int) -> bool {
    pen.last_pos is Some && x == pen.last_pos.unwrap().0 + 1 && y == pen.last_pos.unwrap().1
}

/// The commands that show cell `c` at column `x` of row `y`: a cursor move
/// unless the position follows the last one, a color change for each color
/// that differs (foreground, then background), the emphasis changes, then
/// the grapheme. Gives the new state too.
pub open spec fn render_cell(pen: Pen, x: int, y: int, c: CellView) -> (Pen, Seq<CommandView>) {
    let mv = if follows(pen, x, y) {
        seq![]
    } else {
        seq![CommandView::MoveTo(x, y)]
    };
    let md = if c.modifier != pen.modifier.bits {
        attribute_commands(modifier_diff_spec(pen.modifier.bits, c.modifier))
    } else {
        seq![]
    };
    let f = if c.fg != pen.fg {
        seq![CommandView::SetForeground(c.fg)]
    } else {
        seq![]
    };
    let b = if c.bg != pen.bg {
        seq![CommandView::SetBackground(c.bg)]
    } else {
        seq![]
    };
    (
        Pen { fg: c.fg, bg: c.bg, modifier: Modifier { bits: c.modifier }, last_pos: Some((x as u16, y as u16)) },
        mv + f + b + md + seq![CommandView::Print(c.symbol)],
    )
}

/// The commands that show each entry in turn, from state `pen`.
pub open spec fn render_entries(pen: Pen, es: Seq<(int, int, CellView)>) -> Seq<CommandView>
    decreases es.len(),
{
    if es.len() == 0 {
        seq![]
    } else {
        let (next, cmds) = render_cell(pen, es[0].0, es[0].1, es[0].2);
        cmds + render_entries(next, es.drop_first())
    }
}

/// The state after showing each entry in turn, from state `pen`.
pub open spec fn pen_after(pen: Pen, es: Seq<(int, int, CellView)>) -> Pen
    decreases es.len(),
{
    if es.len() == 0 {
        pen
    } else {
        pen_after(render_cell(pen, es[0].0, es[0].1, es[0].2).0, es.drop_first())
    }
}

/// The commands that end a render pass: default colors and no emphasis.
pub open spec fn reset_commands() -> Seq<CommandView> {
    seq![
        CommandView::SetForeground(Color::Reset),
        CommandView::SetBackground(Color::Reset),
        CommandView::SetAttribute(Attribute::Reset),
    ]
}

impl Pen {
    /// The state at the start of a render pass.
    pub fn new() -> (r: Pen)
        ensures
            r == initial_pen(),
    {
        Pen { fg: Color::Reset, bg: Color::Reset, modifier: Modifier::empty(), last_pos: None }
    }

    /// Appends the commands that show `cell` at column `x` of row `y`.
    pub fn put(&mut self, x: u16, y: u16, cell: &Cell, out: &mut Vec<Command>)
        ensures
            *final(self) == render_cell(*old(self), x as int, y as int, cell@).0,
            commands_view(final(out)@) == commands_view(old(out)@) + render_cell(
                *old(self),
                x as int,
                y as int,
                cell@,
            ).1,
    {
        let ghost start = commands_view(out@);
        let ghost pen0 = *self;
        let follows = match self.last_pos {
            Some(p) => x >= 1 && x - 1 == p.0 && y == p.1,
            None => false,
        };
        if !follows {
            emit(out, Command::MoveTo(x, y));
        }
        if cell.fg != self.fg {
            emit(out, Command::SetForeground(cell.fg));
            self.fg = cell.fg;
        }
        if cell.bg != self.bg {
            emit(out, Command::SetBackground(cell.bg));
            self.bg = cell.bg;
        }
        if cell.modifier != self.modifier {
            let diff = ModifierDiff { from: self.modifier, to: cell.modifier };
            diff.queue(out);
            self.modifier = cell.modifier;
        }
        emit(out, Command::Print(cell.symbol.clone()));
        self.fg = cell.fg;
        self.bg = cell.bg;
        self.modifier = cell.modifier;
        self.last_pos = Some((x, y));
        proof {
            let (np, cmds) = render_cell(pen0, x as int, y as int, cell@);
            assert(commands_view(out@) =~= start + cmds);
        }
    }
}

/// Appends the commands that end a render pass.
pub fn emit_reset(out: &mut Vec<Command>)
    ensures
        commands_view(final(out)@) == commands_view(old(out)@) + reset_commands(),
{
    let ghost start = commands_view(out@);
    emit(out, Command::SetForeground(Color::Reset));
    emit(out, Command::SetBackground(Color::Reset));
    emit(out, Command::SetAttribute(Attribute::Reset));
    assert(commands_view(out@) =~= start + reset_commands());
}

/// The commands that show each change of `diff` in turn, then end the pass.
pub fn render(diff: &Vec<(u16, u16, Cell)>) -> (r: Vec<Command>)
    ensures
        commands_view(r@) == render_entries(initial_pen(), crate::buffer::entries_view(diff@))
            + reset_commands(),
{
    let ghost es = crate::buffer::entries_view(diff@);
    let mut out: Vec<Command> = Vec::new();
    let mut pen = Pen::new();
    let mut i: usize = 0;
    assert(es.skip(0) =~= es);
    assert(commands_view(out@) =~= Seq::<CommandView>::empty());
    while i < diff.len()
        invariant
            i <= diff@.len(),
            es == crate::buffer::entries_view(diff@),
            commands_view(out@) + render_entries(pen, es.skip(i as int)) == render_entries(initial_pen(), es),
        decreases diff@.len() - i,
    {
        let ghost before = commands_view(out@);
        let ghost pen0 = pen;
        let (x, y, ref cell) = diff[i];
        pen.put(x, y, cell, &mut out);
        proof {
            let rest = es.skip(i as int);
            assert(rest[0] == (x as int, y as int, cell@));
            assert(rest.drop_first() =~= es.skip(i + 1));
            let (np, cmds) = render_cell(pen0, x as int, y as int, cell@);
            assert(render_entries(pen0, rest) == cmds + render_entries(np, es.skip(i + 1)));
            assert(before + (cmds + render_entries(np, es.skip(i + 1))) =~= (before + cmds) + render_entries(np, es.skip(i + 1)));
        }
        i += 1;
    }
    assert(es.skip(i as int) =~= Seq::<(int, int, CellView)>::empty());
    assert(commands_view(out@) + Seq::<CommandView>::empty() =~= commands_view(out@));
    emit_reset(&mut out);
    out
}

/// Shows each drawn cell `es` of a grid whose top left corner is at column
/// `ox` of row `oy` on a screen of the given `width` whose cells are
/// `cells`: a cell that the screen already holds is left out; any other is
/// recorded and rendered. Gives the screen's cells and the commands.
pub open spec fn screen_update(
    cells: Seq<CellView>,
    width: int,
    ox: int,
    oy: int,
    pen: Pen,
    es: Seq<(int, int, CellView)>,
) -> (Seq<CellView>, Seq<CommandView>)
    decreases es.len(),
{
    if es.len() == 0 {
        (cells, seq![])
    } else {
        let gx = es[0].0 + ox;
        let gy = es[0].1 + oy;
        let i = gy * width + gx;
        if es[0].2 == cells[i] {
            screen_update(cells, width, ox, oy, pen, es.drop_first())
        } else {
            let (next, cmds) = render_cell(pen, gx, gy, es[0].2);
            let rest = screen_update(cells.update(i, es[0].2), width, ox, oy, next, es.drop_first());
            (rest.0, cmds + rest.1)
        }
    }
}

/// The screen position where an entry of a grid whose top left corner is
/// at column `ox` of row `oy` lands, on a screen of the given `width`.
pub open spec fn screen_index(e: (int, int, CellView), width: int, ox: int, oy: int) -> int {
    (e.1 + oy) * width + e.0 + ox
}

/// Whether some entry of `es` lands on screen position `j`.
pub open spec fn touches(es: Seq<(int, int, CellView)>, width: int, ox: int, oy: int, j: int) -> bool
    decreases es.len(),
{
    es.len() > 0 && (screen_index(es[0], width, ox, oy) == j || touches(es.drop_first(), width, ox, oy, j))
}

proof fn lemma_untouched(es: Seq<(int, int, CellView)>, width: int, ox: int, oy: int, j: int)
    requires
        forall|k: int| 0 <= k < es.len() ==> screen_index(#[trigger] es[k], width, ox, oy) != j,
    ensures
        !touches(es, width, ox, oy, j),
    decreases es.len(),
{
    if es.len() > 0 {
        let rest = es.drop_first();
        assert forall|k: int| 0 <= k < rest.len() implies screen_index(#[trigger] rest[k], width, ox, oy) != j by {
            assert(rest[k] == es[k + 1]);
        }
        lemma_untouched(rest, width, ox, oy, j);
    }
}

/// The entries land on the screen, at strictly ascending positions.
pub open spec fn ascending_on_screen(es: Seq<(int, int, CellView)>, width: int, ox: int, oy: int, len: int) -> bool {
    &&& forall|k: int| 0 <= k < es.len() ==> 0 <= screen_index(#[trigger] es[k], width, ox, oy) < len
    &&& forall|k: int, l: int|
        0 <= k < l < es.len() ==> screen_index(#[trigger] es[k], width, ox, oy) < screen_index(
            #[trigger] es[l],
            width,
            ox,
            oy,
        )
}

/// After a pass, the screen holds each entry's cell at the entry's
/// position, and every position that no entry lands on keeps its cell.
proof fn lemma_screen_update_records(
    cells: Seq<CellView>,
    width: int,
    ox: int,
    oy: int,
    pen: Pen,
    es: Seq<(int, int, CellView)>,
)
    requires
        ascending_on_screen(es, width, ox, oy, cells.len() as int),
    ensures
        screen_update(cells, width, ox, oy, pen, es).0.len() == cells.len(),
        forall|k: int|
            0 <= k < es.len() ==> screen_update(cells, width, ox, oy, pen, es).0[screen_index(
                #[trigger] es[k],
                width,
                ox,
                oy,
            )] == es[k].2,
        forall|j: int|
            0 <= j < cells.len() && !touches(es, width, ox, oy, j) ==> #[trigger] screen_update(
                cells,
                width,
                ox,
                oy,
                pen,
                es,
            ).0[j] == cells[j],
    decreases es.len(),
{
    if es.len() > 0 {
        let rest = es.drop_first();
        let i = screen_index(es[0], width, ox, oy);
        let same = es[0].2 == cells[i];
        let next_cells = if same {
            cells
        } else {
            cells.update(i, es[0].2)
        };
        let next_pen = if same {
            pen
        } else {
            render_cell(pen, es[0].0 + ox, es[0].1 + oy, es[0].2).0
        };
        assert forall|k: int| 0 <= k < rest.len() implies rest[k] == es[k + 1] by {}
        assert forall|k: int| 0 <= k < rest.len() implies screen_index(#[trigger] rest[k], width, ox, oy) != i by {
            assert(rest[k] == es[k + 1]);
        }
        assert(ascending_on_screen(rest, width, ox, oy, cells.len() as int)) by {
            assert forall|k: int, l: int| 0 <= k < l < rest.len() implies screen_index(#[trigger] rest[k], width, ox, oy)
                < screen_index(#[trigger] rest[l], width, ox, oy) by {
                assert(rest[k] == es[k + 1]);
                assert(rest[l] == es[l + 1]);
            }
        }
        lemma_screen_update_records(next_cells, width, ox, oy, next_pen, rest);
        lemma_untouched(rest, width, ox, oy, i);
        let r = screen_update(cells, width, ox, oy, pen, es).0;
        assert(r == screen_update(next_cells, width, ox, oy, next_pen, rest).0);
        assert forall|k: int| 0 <= k < es.len() implies r[screen_index(#[trigger] es[k], width, ox, oy)] == es[k].2 by {
            if k > 0 {
                assert(es[k] == rest[k - 1]);
            }
        }
    }
}

/// A pass over entries whose cells the screen already holds sends nothing
/// and changes nothing.
pub proof fn lemma_screen_update_settled(
    cells: Seq<CellView>,
    width: int,
    ox: int,
    oy: int,
    pen: Pen,
    es: Seq<(int, int, CellView)>,
)
    requires
        forall|k: int|
            0 <= k < es.len() ==> cells[screen_index(#[trigger] es[k], width, ox, oy)] == es[k].2,
    ensures
        screen_update(cells, width, ox, oy, pen, es) == (cells, Seq::<CommandView>::empty()),
    decreases es.len(),
{
    if es.len() > 0 {
        let rest = es.drop_first();
        assert forall|k: int| 0 <= k < rest.len() implies cells[screen_index(#[trigger] rest[k], width, ox, oy)]
            == rest[k].2 by {
            assert(rest[k] == es[k + 1]);
        }
        lemma_screen_update_settled(cells, width, ox, oy, pen, rest);
    }
}

/// Cells of a grid in row-by-row order land on the screen in ascending
/// order when the grid fits in the screen's width.
proof fn lemma_position_order(r1: int, c1: int, r2: int, c2: int, w: int, width: int, ox: int, oy: int)
    requires
        0 <= c1 < w,
        0 <= c2 < w,
        0 <= r1,
        0 <= r2,
        0 <= ox,
        0 <= oy,
        ox + w <= width,
        r1 * w + c1 < r2 * w + c2,
    ensures
        (r1 + oy) * width + c1 + ox < (r2 + oy) * width + c2 + ox,
{
    assert(r1 <= r2) by (nonlinear_arith)
        requires
            0 <= c1 < w,
            0 <= c2 < w,
            r1 * w + c1 < r2 * w + c2,
    ;
    if r1 < r2 {
        assert((r1 + oy) * width + width <= (r2 + oy) * width) by (nonlinear_arith)
            requires
                r1 < r2,
                width >= 0,
        ;
    }
}

/// The drawn cells of a grid that fits on the screen at column `ox` of row
/// `oy` land on the screen at strictly ascending positions.
pub proof fn lemma_visible_entries_ascending(
    cells: Seq<CellView>,
    w: int,
    h: int,
    width: int,
    height: int,
    ox: int,
    oy: int,
)
    requires
        w > 0,
        h >= 0,
        cells.len() == w * h,
        0 <= ox,
        0 <= oy,
        ox + w <= width,
        oy + h <= height,
    ensures
        ascending_on_screen(visible_entries(cells, w, w * h), width, ox, oy, width * height),
{
    let es = visible_entries(cells, w, w * h);
    lemma_visible_entries_in_grid(cells, w, h, w * h);
    assert forall|k: int| 0 <= k < es.len() implies 0 <= screen_index(#[trigger] es[k], width, ox, oy) < width
        * height by {
        let e = es[k];
        assert(0 <= (e.1 + oy) * width + e.0 + ox < width * height) by (nonlinear_arith)
            requires
                0 <= e.0 < w,
                0 <= e.1 < h,
                0 <= ox,
                0 <= oy,
                ox + w <= width,
                oy + h <= height,
        ;
    }
    lemma_visible_indices_ascending(cells, w, w * h);
    assert forall|k: int, l: int| 0 <= k < l < es.len() implies screen_index(#[trigger] es[k], width, ox, oy)
        < screen_index(#[trigger] es[l], width, ox, oy) by {
        lemma_position_order(es[k].1, es[k].0, es[l].1, es[l].0, w, width, ox, oy);
    }
}

/// The drawn cells' positions in the grid ascend strictly.
proof fn lemma_visible_indices_ascending(cells: Seq<CellView>, w: int, n: int)
    requires
        w > 0,
        0 <= n <= cells.len(),
    ensures
        forall|k: int, l: int|
            0 <= k < l < visible_entries(cells, w, n).len() ==> (#[trigger] visible_entries(cells, w, n)[k]).1 * w
                + visible_entries(cells, w, n)[k].0 < (#[trigger] visible_entries(cells, w, n)[l]).1 * w
                + visible_entries(cells, w, n)[l].0,
        forall|k: int|
            0 <= k < visible_entries(cells, w, n).len() ==> {
                let e = #[trigger] visible_entries(cells, w, n)[k];
                &&& 0 <= e.0 < w
                &&& 0 <= e.1
                &&& e.1 * w + e.0 < n
            },
    decreases n,
{
    if n > 0 {
        lemma_visible_indices_ascending(cells, w, n - 1);
        let j = n - 1;
        vstd::arithmetic::div_mod::lemma_fundamental_div_mod(j, w);
        assert((j / w) * w + j % w == j) by (nonlinear_arith)
            requires
                j == w * (j / w) + (j % w),
        ;
        assert(0 <= j % w < w) by (nonlinear_arith)
            requires
                w > 0,
        ;
        assert(0 <= j / w) by (nonlinear_arith)
            requires
                w > 0,
                j >= 0,
        ;
        let prev = visible_entries(cells, w, j);
        if !cells[j].skip {
            assert(visible_entries(cells, w, n) == prev.push((j % w, j / w, cells[j])));
        }
    }
}

/// Drawing a window's interior a second time, with neither the screen nor
/// the window changed since, sends no cell: only the commands that end the
/// pass and move the cursor back.
pub proof fn lemma_terminal_redraw_silent(term: Terminal, win: Window, cursor: (u16, u16))
    requires
        term.wf(),
        win.wf(),
        win.fits(term.width as int, term.height as int),
    ensures
        ({
            let es = visible_entries(
                win.buffer.cells(),
                win.buffer.width as int,
                win.buffer.cells().len() as int,
            );
            let ox = win.area.x + 1;
            let oy = win.area.y + 1;
            let first = screen_update(term.buffer.cells(), term.width as int, ox, oy, initial_pen(), es);
            screen_update(first.0, term.width as int, ox, oy, initial_pen(), es) == (
                first.0,
                Seq::<CommandView>::empty(),
            )
        }),
{
    let w = win.buffer.width as int;
    let h = win.buffer.height as int;
    let es = visible_entries(win.buffer.cells(), w, win.buffer.cells().len() as int);
    let ox = win.area.x + 1;
    let oy = win.area.y + 1;
    lemma_visible_entries_ascending(
        win.buffer.cells(),
        w,
        h,
        term.width as int,
        term.height as int,
        ox,
        oy,
    );
    let first = screen_update(term.buffer.cells(), term.width as int, ox, oy, initial_pen(), es);
    lemma_screen_update_records(term.buffer.cells(), term.width as int, ox, oy, initial_pen(), es);
    lemma_screen_update_settled(first.0, term.width as int, ox, oy, initial_pen(), es);
}

/// A screen that shows one window's interior, holding what it last sent so
/// that only the cells that change are rendered.
#[derive(Debug)]
pub struct Terminal {
    pub width: u16,
    pub height: u16,
    pub buffer: Buffer,
}

impl Terminal {
    /// The grid has the screen's size.
    pub open spec fn wf(&self) -> bool {
        self.buffer.wf() && self.buffer.width == self.width && self.buffer.height == self.height
    }

    /// The command that moves the cursor to column `x` of row `y`.
    pub fn set_cursor_pos(x: u16, y: u16) -> (r: Command)
        ensures
            r@ == CommandView::MoveTo(x as int, y as int),
    {
        Command::MoveTo(x, y)
    }

    /// A screen of the given size, blank.
    pub fn init(width: u16, height: u16) -> (r: Terminal)
        ensures
            r.wf(),
            r.width == width,
            r.height == height,
            forall|i: int| 0 <= i < r.buffer.cells().len() ==> #[trigger] r.buffer.cells()[i] == crate::buffer::blank(),
    {
        Terminal { width, height, buffer: Buffer::empty(width, height) }
    }

    /// Changes the size; the screen is then blank.
    pub fn resize(&mut self, width: u16, height: u16)
        requires
            old(self).wf(),
        ensures
            final(self).wf(),
            final(self).width == width,
            final(self).height == height,
            forall|i: int|
                0 <= i < final(self).buffer.cells().len() ==> #[trigger] final(self).buffer.cells()[i]
                    == crate::buffer::blank(),
    {
        self.width = width;
        self.height = height;
        self.buffer.resize(width, height);
        self.buffer.reset();
    }

    /// Takes the screen's current `size`, adopting it if it changed, then
    /// renders the window's interior; see `draw`.
    pub fn put(&mut self, win: &Window, size: (u16, u16), cursor: (u16, u16)) -> (r: Vec<Command>)
        requires
            old(self).wf(),
            win.wf(),
            win.fits(size.0 as int, size.1 as int),
        ensures
            final(self).wf(),
            final(self).width == size.0,
            final(self).height == size.1,
            ({
                let su = screen_update(
                    if size.0 == old(self).width && size.1 == old(self).height {
                        old(self).buffer.cells()
                    } else {
                        Seq::new(
                            (size.0 * size.1) as nat,
                            |i: int|
                                if i < old(self).buffer.cells().len() {
                                    old(self).buffer.cells()[i]
                                } else {
                                    crate::buffer::blank()
                                },
                        )
                    },
                    size.0 as int,
                    win.area.x + 1,
                    win.area.y + 1,
                    initial_pen(),
                    visible_entries(
                        win.buffer.cells(),
                        win.buffer.width as int,
                        win.buffer.cells().len() as int,
                    ),
                );
                &&& final(self).buffer.cells() == su.0
                &&& commands_view(r@) == su.1 + reset_commands() + seq![
                    CommandView::MoveTo(cursor.0 as int, cursor.1 as int),
                ]
            }),
    {
        if size.0 != self.width || size.1 != self.height {
            let ghost before = self.buffer.cells();
            self.buffer.resize(size.0, size.1);
            self.width = size.0;
            self.height = size.1;
            assert(self.buffer.cells() =~= Seq::new(
                (size.0 * size.1) as nat,
                |i: int|
                    if i < before.len() {
                        before[i]
                    } else {
                        crate::buffer::blank()
                    },
            ));
        }
        self.draw(win, cursor)
    }

    /// Renders the cells of the window's interior that differ from what the
    /// screen holds, at their place on the screen, recording them; then ends
    /// the pass and moves the cursor back to `cursor`. The window must fit.
    pub fn draw(&mut self, win: &Window, cursor: (u16, u16)) -> (r: Vec<Command>)
        requires
            old(self).wf(),
            win.wf(),
            win.fits(old(self).width as int, old(self).height as int),
        ensures
            final(self).wf(),
            final(self).width == old(self).width,
            final(self).height == old(self).height,
            ({
                let su = screen_update(
                    old(self).buffer.cells(),
                    old(self).width as int,
                    win.area.x + 1,
                    win.area.y + 1,
                    initial_pen(),
                    visible_entries(
                        win.buffer.cells(),
                        win.buffer.width as int,
                        win.buffer.cells().len() as int,
                    ),
                );
                &&& final(self).buffer.cells() == su.0
                &&& commands_view(r@) == su.1 + reset_commands() + seq![
                    CommandView::MoveTo(cursor.0 as int, cursor.1 as int),
                ]
            }),
    {
        let ox = win.area.x + 1;
        let oy = win.area.y + 1;
        let entries = win.buffer.draw();
        let ghost es = entries_view(entries@);
        let ghost target = screen_update(self.buffer.cells(), self.width as int, ox as int, oy as int, initial_pen(), es);
        proof {
            lemma_visible_entries_in_grid(
                win.buffer.cells(),
                win.buffer.width as int,
                win.buffer.height as int,
                win.buffer.cells().len() as int,
            );
        }
        let mut out: Vec<Command> = Vec::new();
        let mut pen = Pen::new();
        let mut i: usize = 0;
        assert(es.skip(0) =~= es);
        assert(commands_view(out@) =~= Seq::<CommandView>::empty());
        while i < entries.len()
            invariant
                self.wf(),
                self.width == old(self).width,
                self.height == old(self).height,
                win.wf(),
                win.fits(self.width as int, self.height as int),
                ox == win.area.x + 1,
                oy == win.area.y + 1,
                i <= entries@.len(),
                es == entries_view(entries@),
                es == visible_entries(win.buffer.cells(), win.buffer.width as int, win.buffer.cells().len() as int),
                forall|k: int|
                    0 <= k < es.len() ==> {
                        let e = #[trigger] es[k];
                        &&& 0 <= e.0 < win.buffer.width
                        &&& 0 <= e.1 < win.buffer.height
                    },
                screen_update(self.buffer.cells(), self.width as int, ox as int, oy as int, pen, es.skip(i as int)).0
                    == target.0,
                commands_view(out@) + screen_update(
                    self.buffer.cells(),
                    self.width as int,
                    ox as int,
                    oy as int,
                    pen,
                    es.skip(i as int),
                ).1 == target.1,
            decreases entries@.len() - i,
        {
            let ghost cells0 = self.buffer.cells();
            let ghost pen0 = pen;
            let ghost before = commands_view(out@);
            let (x, y, ref cell) = entries[i];
            assert(es[i as int] == (x as int, y as int, cell@));
            let gx = x + ox;
            let gy = y + oy;
            let idx = self.buffer.index_of(gx, gy);
            let ghost rest = es.skip(i as int);
            assert(rest[0] == es[i as int]);
            assert(rest.drop_first() =~= es.skip(i + 1));
            assert(cells0[idx as int] == self.buffer.content@[idx as int]@);
            if !cell.eq(&self.buffer.content[idx]) {
                self.buffer.content.set(idx, cell.clone());
                assert(self.buffer.cells() =~= cells0.update(idx as int, cell@));
                pen.put(gx, gy, cell, &mut out);
                proof {
                    let (np, cmds) = render_cell(pen0, gx as int, gy as int, cell@);
                    let tail = screen_update(cells0.update(idx as int, cell@), self.width as int, ox as int, oy as int, np, es.skip(i + 1));
                    assert(before + (cmds + tail.1) =~= (before + cmds) + tail.1);
                }
            }
            i += 1;
        }
        assert(es.skip(i as int) =~= Seq::<(int, int, CellView)>::empty());
        let ghost body = commands_view(out@);
        assert(body + Seq::<CommandView>::empty() =~= body);
        emit_reset(&mut out);
        emit(&mut out, Command::MoveTo(cursor.0, cursor.1));
        out
    }
}

} // verus!
