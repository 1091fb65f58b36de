//! The window manager: a double-buffered screen, an ordered list of windows
//! with the focused one first, and the decisions of the redraw loop.

use crate::buffer::{blank, diff_entries, entries_view, insert_spec, Buffer, Cell, CellView};
use crate::terminal::{commands_view, initial_pen, render, render_entries, reset_commands, Command};
use crate::window::{bordered, saturating_add_signed, ContentInfo, Window};
use vstd::prelude::*;

verus! {

/// The time between two periodic updates, in milliseconds.
pub const FRAME_MILLIS: u64 = 50;

/// The key of a key press.
#[derive(Debug, Clone, Copy, PartialEq, Eq, Structural, Hash)]
pub enum KeyCode {
    Char(char),
    Left,
    Up,
    Right,
    Down,
    PageUp,
    PageDown,
    Enter,
    Esc,
    Backspace,
    Tab,
    Other,
}

/// The modifier keys held during a key press.
#[derive(Debug, Default, Clone, Copy, PartialEq, Eq, Structural, Hash)]
pub struct KeyModifiers {
    pub shift: bool,
    pub control: bool,
    pub alt: bool,
}

/// A key press.
#[derive(Debug, Clone, Copy, PartialEq, Eq, Structural, Hash)]
pub struct KeyEvent {
    pub code: KeyCode,
    pub modifiers: KeyModifiers,
}

/// An input event.
#[derive(Debug, Clone, PartialEq, Eq)]
pub enum Event {
    Key(KeyEvent),
    Mouse,
    Paste(String),
    Resize(u16, u16),
    Other,
}

/// What a key does to the window manager.
#[derive(Debug, Clone, Copy, PartialEq, Eq, Structural, Hash)]
pub enum KeyAction {
    /// The key is not a manager binding: it goes to the focused window.
    PassThrough,
    /// Stop the loop.
    Exit,
    /// Move the focused window by a signed amount.
    Move(i16, i16),
    /// Resize the focused window by a signed amount.
    Resize(i16, i16),
    /// Move the first window to the end of the list.
    CycleForward,
    /// Move the last window to the front of the list.
    CycleBackward,
}

/// What the loop does after an event.
#[derive(Debug, Clone, Copy, PartialEq, Eq, Structural, Hash)]
pub enum LoopAction {
    /// Hand the key to the focused window's content, then render a frame.
    Forward(KeyEvent),
    /// Have the focused window's content draw its resized interior afresh,
    /// then render a frame.
    RedrawFocused,
    /// Render a frame.
    Render,
    /// Nothing.
    Ignore,
}

/// The manager binding of a key: with Control and Shift held, the arrows
/// resize the focused window by one cell; with Control alone, the arrows move
/// it by one cell, Page Down and Page Up cycle the windows and `c` exits.
/// Every other key passes through.
pub open spec fn key_action_spec(e: KeyEvent) -> KeyAction {
    if !e.modifiers.control {
        KeyAction::PassThrough
    } else if e.modifiers.shift {
        match e.code {
            KeyCode::Left => KeyAction::Resize(-1i16, 0i16),
            KeyCode::Up => KeyAction::Resize(0i16, -1i16),
            KeyCode::Right => KeyAction::Resize(1i16, 0i16),
            KeyCode::Down => KeyAction::Resize(0i16, 1i16),
            _ => KeyAction::PassThrough,
        }
    } else {
        match e.code {
            KeyCode::Char(c) => if c == 'c' {
                KeyAction::Exit
            } else {
                KeyAction::PassThrough
            },
            KeyCode::Left => KeyAction::Move(-1i16, 0i16),
            KeyCode::Up => KeyAction::Move(0i16, -1i16),
            KeyCode::Right => KeyAction::Move(1i16, 0i16),
            KeyCode::Down => KeyAction::Move(0i16, 1i16),
            KeyCode::PageDown => KeyAction::CycleForward,
            KeyCode::PageUp => KeyAction::CycleBackward,
            _ => KeyAction::PassThrough,
        }
    }
}

/// The manager binding of a key; see `key_action_spec`.
pub fn key_action(e: KeyEvent) -> (r: KeyAction)
    ensures
        r == key_action_spec(e),
{
    if !e.modifiers.control {
        KeyAction::PassThrough
    } else if e.modifiers.shift {
        match e.code {
            KeyCode::Left => KeyAction::Resize(-1, 0),
            KeyCode::Up => KeyAction::Resize(0, -1),
            KeyCode::Right => KeyAction::Resize(1, 0),
            KeyCode::Down => KeyAction::Resize(0, 1),
            _ => KeyAction::PassThrough,
        }
    } else {
        match e.code {
            KeyCode::Char(c) => if c == 'c' {
                KeyAction::Exit
            } else {
                KeyAction::PassThrough
            },
            KeyCode::Left => KeyAction::Move(-1, 0),
            KeyCode::Up => KeyAction::Move(0, -1),
            KeyCode::Right => KeyAction::Move(1, 0),
            KeyCode::Down => KeyAction::Move(0, 1),
            KeyCode::PageDown => KeyAction::CycleForward,
            KeyCode::PageUp => KeyAction::CycleBackward,
            _ => KeyAction::PassThrough,
        }
    }
}

/// `cells`, of a screen of the given size, with each window of `ws` that
/// fits on it drawn in turn, later ones over earlier ones.
pub open spec fn compose(cells: Seq<CellView>, width: int, height: int, ws: Seq<Window>) -> Seq<CellView>
    decreases ws.len(),
{
    if ws.len() == 0 {
        cells
    } else {
        let below = compose(cells, width, height, ws.drop_last());
        let w = ws.last();
        if w.fits(width, height) {
            bordered(
                insert_spec(
                    below,
                    width,
                    w.area.x + 1,
                    w.area.y + 1,
                    w.buffer.cells(),
                    w.buffer.width as int,
                    w.buffer.height as int,
                ),
                width,
                w.area,
                w.info,
                w.title@,
            )
        } else {
            below
        }
    }
}

/// The first window, moved by a signed amount.
pub open spec fn moved(w: Window, dx: i16, dy: i16) -> Window {
    Window {
        area: crate::window::Rect {
            x: saturating_add_signed(w.area.x, dx),
            y: saturating_add_signed(w.area.y, dy),
            ..w.area
        },
        ..w
    }
}

/// A size changed by a signed amount, held between three cells and the largest size.
pub open spec fn resized_extent(v: u16, d: i16) -> u16 {
    if saturating_add_signed(v, d) < 3 {
        3
    } else {
        saturating_add_signed(v, d)
    }
}

/// `after` is `before` resized by a signed amount, in place, with its title
/// and scroll declaration, its interior cells kept in row-by-row order and
/// those added blank.
pub open spec fn resized(before: Window, after: Window, dx: i16, dy: i16) -> bool {
    &&& after.wf()
    &&& after.area.x == before.area.x
    &&& after.area.y == before.area.y
    &&& after.area.width == resized_extent(before.area.width, dx)
    &&& after.area.height == resized_extent(before.area.height, dy)
    &&& after.title == before.title
    &&& after.info == before.info
    &&& forall|i: int|
        0 <= i < after.buffer.cells().len() ==> #[trigger] after.buffer.cells()[i] == if i
            < before.buffer.cells().len() {
            before.buffer.cells()[i]
        } else {
            blank()
        }
}

/// The window list `after` is `before` with the manager binding `a`
/// applied: the focused window moved or resized, or the list cycled; a
/// binding that acts on the focused window leaves an empty list as it is.
pub open spec fn keys_applied(before: Seq<Window>, after: Seq<Window>, a: KeyAction) -> bool {
    match a {
        KeyAction::Move(dx, dy) => if before.len() > 0 {
            after == before.update(0, moved(before[0], dx, dy))
        } else {
            after == before
        },
        KeyAction::Resize(dx, dy) => if before.len() > 0 {
            &&& after.len() == before.len()
            &&& resized(before[0], after[0], dx, dy)
            &&& forall|i: int|
                1 <= i < before.len() ==> #[trigger] after[i]
                    == before[i]
        } else {
            after == before
        },
        KeyAction::CycleForward => if before.len() > 0 {
            after == before.drop_first().push(before[0])
        } else {
            after == before
        },
        KeyAction::CycleBackward => if before.len() > 0 {
            after == seq![before.last()] + before.drop_last()
        } else {
            after == before
        },
        _ => after == before,
    }
}

/// Every cell is blank.
pub open spec fn all_blank(cells: Seq<CellView>) -> bool {
    forall|i: int| 0 <= i < cells.len() ==> #[trigger] cells[i] == blank()
}

/// `after` follows `before` by one completed frame, as `render_frame`
/// states it: the grids swap roles and the new current one is blank.
pub open spec fn completed_frame(before: WindowManager, after: WindowManager) -> bool {
    &&& after.current == 1 - before.current
    &&& all_blank(after.current_buffer().cells())
}

/// Over successive completed frames from a new manager, the current grid's
/// index runs 0, 1, 0, 1, ..., and after each frame the current grid is blank
/// before the next composition writes into it.
pub proof fn lemma_frames_alternate(states: Seq<WindowManager>)
    requires
        states.len() > 0,
        states[0].current == 0,
        forall|k: int| 0 <= k < states.len() - 1 ==> completed_frame(#[trigger] states[k], states[k + 1]),
    ensures
        forall|k: int| 0 <= k < states.len() ==> (#[trigger] states[k]).current == k % 2,
        forall|k: int| 1 <= k < states.len() ==> all_blank((#[trigger] states[k]).current_buffer().cells()),
    decreases states.len(),
{
    if states.len() > 1 {
        let front = states.drop_last();
        assert forall|k: int| 0 <= k < front.len() - 1 implies completed_frame(#[trigger] front[k], front[k + 1]) by {
            assert(completed_frame(states[k], states[k + 1]));
        }
        lemma_frames_alternate(front);
        let n = states.len() - 1;
        assert(completed_frame(states[n - 1], states[n]));
        assert(front[n - 1] == states[n - 1]);
        assert forall|k: int| 0 <= k < states.len() implies (#[trigger] states[k]).current == k % 2 by {
            if k < n {
                assert(front[k] == states[k]);
            }
        }
        assert forall|k: int| 1 <= k < states.len() implies all_blank((#[trigger] states[k]).current_buffer().cells()) by {
            if k < n {
                assert(front[k] == states[k]);
            }
        }
    }
}

/// The screen's two grids, the windows with the focused one first, whether
/// the loop is to stop, and when the next periodic update is due.
#[derive(Debug)]
pub struct WindowManager {
    pub buffer0: Buffer,
    pub buffer1: Buffer,
    pub current: usize,
    pub should_exit: bool,
    pub width: u16,
    pub height: u16,
    pub windows: Vec<Window>,
    pub next_frame: u64,
}

impl WindowManager {
    /// Both grids have the screen's size, `current` picks one of them, and
    /// every window is well formed.
    pub open spec fn wf(&self) -> bool {
        &&& self.buffer0.wf()
        &&& self.buffer1.wf()
        &&& self.buffer0.width == self.width
        &&& self.buffer0.height == self.height
        &&& self.buffer1.width == self.width
        &&& self.buffer1.height == self.height
        &&& self.current < 2
        &&& forall|i: int| 0 <= i < self.windows@.len() ==> (#[trigger] self.windows@[i]).wf()
    }

    /// The grid that the next frame is composed on.
    pub open spec fn current_buffer(&self) -> Buffer {
        if self.current == 0 {
            self.buffer0
        } else {
            self.buffer1
        }
    }

    /// The grid that holds what the screen shows.
    pub open spec fn previous_buffer(&self) -> Buffer {
        if self.current == 0 {
            self.buffer1
        } else {
            self.buffer0
        }
    }

    /// A manager for a screen of the given size, with blank grids and no window.
    pub fn new(width: u16, height: u16) -> (r: WindowManager)
        ensures
            r.wf(),
            r.width == width,
            r.height == height,
            r.current == 0,
            !r.should_exit,
            r.windows@.len() == 0,
            r.next_frame == FRAME_MILLIS,
            all_blank(r.buffer0.cells()),
            all_blank(r.buffer1.cells()),
    {
        WindowManager {
            buffer0: Buffer::empty(width, height),
            buffer1: Buffer::empty(width, height),
            current: 0,
            should_exit: false,
            width,
            height,
            windows: Vec::new(),
            next_frame: FRAME_MILLIS,
        }
    }

    /// Adds a window at the end of the list.
    pub fn add_window(&mut self, win: Window)
        requires
            old(self).wf(),
            win.wf(),
        ensures
            final(self).wf(),
            final(self).windows@ == old(self).windows@.push(win),
            final(self).next_frame == old(self).next_frame,
            final(self).width == old(self).width,
            final(self).height == old(self).height,
            final(self).buffer0 == old(self).buffer0,
            final(self).buffer1 == old(self).buffer1,
            final(self).current == old(self).current,
            final(self).should_exit == old(self).should_exit,
    {
        self.windows.push(win);
    }

    /// Applies a manager binding; says whether the key passes through to the
    /// focused window instead. A binding that acts on the focused window does
    /// nothing when there is no window.
    pub fn handle_manager_keys(&mut self, e: KeyEvent) -> (r: bool)
        requires
            old(self).wf(),
        ensures
            final(self).wf(),
            r == (key_action_spec(e) == KeyAction::PassThrough),
            final(self).buffer0 == old(self).buffer0,
            final(self).buffer1 == old(self).buffer1,
            final(self).current == old(self).current,
            final(self).width == old(self).width,
            final(self).height == old(self).height,
            final(self).next_frame == old(self).next_frame,
            final(self).should_exit == (old(self).should_exit || key_action_spec(e) == KeyAction::Exit),
            keys_applied(old(self).windows@, final(self).windows@, key_action_spec(e)),
    {
        let action = key_action(e);
        let ghost ws = self.windows@;
        match action {
            KeyAction::PassThrough => true,
            KeyAction::Exit => {
                self.should_exit = true;
                false
            },
            KeyAction::Move(dx, dy) => {
                if self.windows.len() > 0 {
                    let mut w = self.windows.remove(0);
                    w.move_by(dx, dy);
                    self.windows.insert(0, w);
                    assert(self.windows@ =~= ws.update(0, moved(ws[0], dx, dy)));
                    assert forall|i: int| 0 <= i < self.windows@.len() implies (#[trigger] self.windows@[i]).wf() by {
                        assert(ws[i].wf());
                    }
                }
                false
            },
            KeyAction::Resize(dx, dy) => {
                if self.windows.len() > 0 {
                    let mut w = self.windows.remove(0);
                    w.resize_by(dx, dy);
                    self.windows.insert(0, w);
                    assert forall|i: int| 0 <= i < self.windows@.len() implies (#[trigger] self.windows@[i]).wf() by {
                        assert(ws[i].wf());
                    }
                    assert forall|i: int| 1 <= i < ws.len() implies #[trigger] self.windows@[i] == ws[i] by {
                    }
                }
                false
            },
            KeyAction::CycleForward => {
                if self.windows.len() > 0 {
                    let w = self.windows.remove(0);
                    self.windows.push(w);
                    assert(self.windows@ =~= ws.drop_first().push(ws[0]));
                    assert forall|i: int| 0 <= i < self.windows@.len() implies (#[trigger] self.windows@[i]).wf() by {
                        if i < ws.len() - 1 {
                            assert(ws[i + 1].wf());
                        } else {
                            assert(ws[0].wf());
                        }
                    }
                }
                false
            },
            KeyAction::CycleBackward => {
                if let Some(w) = self.windows.pop() {
                    self.windows.insert(0, w);
                    assert(self.windows@ =~= seq![ws.last()] + ws.drop_last());
                    assert forall|i: int| 0 <= i < self.windows@.len() implies (#[trigger] self.windows@[i]).wf() by {
                        if i == 0 {
                            assert(ws[ws.len() - 1].wf());
                        } else {
                            assert(ws[i - 1].wf());
                        }
                    }
                }
                false
            },
        }
    }

    /// Handles an input event: a key goes to the manager bindings and, if it
    /// passes through them and there is a window, to the focused window's
    /// content; a binding that resizes the focused window has its content
    /// draw it afresh. A resize of the screen resizes both grids, leaving the
    /// windows where they are. Each is followed by a frame. Mouse, paste and other events are
    /// ignored.
    pub fn handle_event(&mut self, e: Event) -> (r: LoopAction)
        requires
            old(self).wf(),
        ensures
            final(self).wf(),
            match e {
                Event::Key(k) => {
                    &&& r == if old(self).windows@.len() == 0 {
                        LoopAction::Render
                    } else if key_action_spec(k) == KeyAction::PassThrough {
                        LoopAction::Forward(k)
                    } else if key_action_spec(k) is Resize {
                        LoopAction::RedrawFocused
                    } else {
                        LoopAction::Render
                    }
                    &&& final(self).should_exit == (old(self).should_exit || key_action_spec(k) == KeyAction::Exit)
                    &&& keys_applied(old(self).windows@, final(self).windows@, key_action_spec(k))
                    &&& final(self).buffer0 == old(self).buffer0
                    &&& final(self).buffer1 == old(self).buffer1
                    &&& final(self).current == old(self).current
                    &&& final(self).width == old(self).width
                    &&& final(self).height == old(self).height
                    &&& final(self).next_frame == old(self).next_frame
                },
                Event::Resize(w, h) => {
                    &&& r == LoopAction::Render
                    &&& final(self).width == w
                    &&& final(self).height == h
                    &&& final(self).windows == old(self).windows
                    &&& final(self).current == old(self).current
                    &&& final(self).should_exit == old(self).should_exit
                },
                _ => {
                    &&& r == LoopAction::Ignore
                    &&& *final(self) == *old(self)
                },
            },
    {
        match e {
            Event::Key(k) => {
                let any = self.windows.len() > 0;
                let pass = self.handle_manager_keys(k);
                if !any {
                    LoopAction::Render
                } else if pass {
                    LoopAction::Forward(k)
                } else if let KeyAction::Resize(_, _) = key_action(k) {
                    LoopAction::RedrawFocused
                } else {
                    LoopAction::Render
                }
            },
            Event::Resize(w, h) => {
                self.buffer0.resize(w, h);
                self.buffer1.resize(w, h);
                self.width = w;
                self.height = h;
                LoopAction::Render
            },
            _ => LoopAction::Ignore,
        }
    }

    /// How long to wait for input at time `now`, in milliseconds: until the
    /// next periodic update is due, or not at all if it is overdue.
    pub fn poll_timeout(&self, now: u64) -> (r: u64)
        ensures
            r == if self.next_frame > now {
                self.next_frame - now
            } else {
                0
            },
    {
        if self.next_frame > now {
            self.next_frame - now
        } else {
            0
        }
    }

    /// Schedules the next periodic update one frame after `now`; the windows'
    /// contents are then to be updated and a frame rendered.
    pub fn on_timeout(&mut self, now: u64)
        ensures
            final(self).next_frame == if now + FRAME_MILLIS > u64::MAX {
                u64::MAX as int
            } else {
                now + FRAME_MILLIS
            },
            *final(self) == (WindowManager { next_frame: final(self).next_frame, ..*old(self) }),
    {
        self.next_frame = now.saturating_add(FRAME_MILLIS);
    }

    /// Draws every window that fits on the screen onto the current grid, in
    /// list order, later ones over earlier ones.
    pub fn draw_windows(&mut self)
        requires
            old(self).wf(),
        ensures
            final(self).wf(),
            final(self).current_buffer().cells() == compose(
                old(self).current_buffer().cells(),
                old(self).width as int,
                old(self).height as int,
                old(self).windows@,
            ),
            final(self).previous_buffer() == old(self).previous_buffer(),
            final(self).windows == old(self).windows,
            final(self).current == old(self).current,
            final(self).width == old(self).width,
            final(self).height == old(self).height,
            final(self).should_exit == old(self).should_exit,
            final(self).next_frame == old(self).next_frame,
    {
        let ghost start = self.current_buffer().cells();
        let ghost ws = self.windows@;
        let mut i: usize = 0;
        assert(ws.take(0) =~= Seq::<Window>::empty());
        while i < self.windows.len()
            invariant
                self.wf(),
                i <= ws.len(),
                self.windows@ == ws,
                self.windows == old(self).windows,
                self.current == old(self).current,
                self.width == old(self).width,
                self.height == old(self).height,
                self.should_exit == old(self).should_exit,
                self.next_frame == old(self).next_frame,
                self.previous_buffer() == old(self).previous_buffer(),
                start == old(self).current_buffer().cells(),
                self.current_buffer().cells() == compose(
                    start,
                    self.width as int,
                    self.height as int,
                    ws.take(i as int),
                ),
            decreases ws.len() - i,
        {
            let w = &self.windows[i];
            assert(ws[i as int].wf());
            assert(ws.take(i + 1).drop_last() =~= ws.take(i as int));
            assert(ws.take(i + 1).last() == ws[i as int]);
            if (w.area.x as u32 + w.area.width as u32) <= self.width as u32 && (w.area.y as u32
                + w.area.height as u32) <= self.height as u32 {
                if self.current == 0 {
                    w.draw(&mut self.buffer0);
                } else {
                    w.draw(&mut self.buffer1);
                }
            }
            i += 1;
        }
        assert(ws.take(ws.len() as int) =~= ws);
    }

    /// The commands that bring the screen from the previous grid to the
    /// current one.
    pub fn flush(&self) -> (r: Vec<Command>)
        requires
            self.wf(),
        ensures
            commands_view(r@) == render_entries(
                initial_pen(),
                diff_entries(
                    self.previous_buffer().cells(),
                    self.current_buffer().cells(),
                    self.width as int,
                    self.current_buffer().cells().len() as int,
                ),
            ) + reset_commands(),
    {
        let updates = if self.current == 0 {
            self.buffer1.diff(&self.buffer0)
        } else {
            self.buffer0.diff(&self.buffer1)
        };
        self.draw(&updates)
    }

    /// Blanks the previous grid and makes it the current one.
    pub fn swap_buffers(&mut self)
        requires
            old(self).wf(),
        ensures
            final(self).wf(),
            final(self).current == 1 - old(self).current,
            all_blank(final(self).current_buffer().cells()),
            final(self).previous_buffer() == old(self).current_buffer(),
            final(self).windows == old(self).windows,
            final(self).width == old(self).width,
            final(self).height == old(self).height,
            final(self).should_exit == old(self).should_exit,
            final(self).next_frame == old(self).next_frame,
    {
        if self.current == 0 {
            self.buffer1.reset();
        } else {
            self.buffer0.reset();
        }
        self.current = 1 - self.current;
    }

    /// The commands that bring the screen to the current grid; the grids
    /// then swap roles, the new current one blank.
    pub fn update_screen(&mut self) -> (r: Vec<Command>)
        requires
            old(self).wf(),
        ensures
            final(self).wf(),
            commands_view(r@) == render_entries(
                initial_pen(),
                diff_entries(
                    old(self).previous_buffer().cells(),
                    old(self).current_buffer().cells(),
                    old(self).width as int,
                    old(self).current_buffer().cells().len() as int,
                ),
            ) + reset_commands(),
            final(self).current == 1 - old(self).current,
            all_blank(final(self).current_buffer().cells()),
            final(self).previous_buffer() == old(self).current_buffer(),
            final(self).windows == old(self).windows,
            final(self).width == old(self).width,
            final(self).height == old(self).height,
            final(self).should_exit == old(self).should_exit,
            final(self).next_frame == old(self).next_frame,
    {
        let r = self.flush();
        self.swap_buffers();
        r
    }

    /// Renders one frame: composes every window onto the current grid, sends
    /// only the cells that differ from what the screen shows, then swaps the
    /// grids, the new current one blank.
    pub fn render_frame(&mut self) -> (r: Vec<Command>)
        requires
            old(self).wf(),
        ensures
            final(self).wf(),
            commands_view(r@) == render_entries(
                initial_pen(),
                diff_entries(
                    old(self).previous_buffer().cells(),
                    compose(
                        old(self).current_buffer().cells(),
                        old(self).width as int,
                        old(self).height as int,
                        old(self).windows@,
                    ),
                    old(self).width as int,
                    old(self).current_buffer().cells().len() as int,
                ),
            ) + reset_commands(),
            final(self).current == 1 - old(self).current,
            all_blank(final(self).current_buffer().cells()),
            final(self).previous_buffer().cells() == compose(
                old(self).current_buffer().cells(),
                old(self).width as int,
                old(self).height as int,
                old(self).windows@,
            ),
            final(self).windows == old(self).windows,
            final(self).width == old(self).width,
            final(self).height == old(self).height,
            final(self).should_exit == old(self).should_exit,
    {
        self.draw_windows();
        self.update_screen()
    }

    /// The commands that show each change of `diff` in turn, then end the pass.
    pub fn draw(&self, diff: &Vec<(u16, u16, Cell)>) -> (r: Vec<Command>)
        ensures
            commands_view(r@) == render_entries(initial_pen(), entries_view(diff@)) + reset_commands(),
    {
        render(diff)
    }

    pub fn should_exit(&self) -> (r: bool)
        ensures
            r == self.should_exit,
    {
        self.should_exit
    }

    pub fn window_count(&self) -> (r: usize)
        ensures
            r == self.windows@.len(),
    {
        self.windows.len()
    }

    /// The window at place `i` of the list; the focused one is first.
    pub fn window(&self, i: usize) -> (r: &Window)
        requires
            i < self.windows@.len(),
        ensures
            *r == self.windows@[i as int],
    {
        &self.windows[i]
    }

    /// Hands the window at place `i` a new interior grid and scroll
    /// declaration from its content; see `Window::set_content`.
    pub fn set_window_content(&mut self, i: usize, buffer: Buffer, info: ContentInfo) -> (r: bool)
        requires
            old(self).wf(),
            i < old(self).windows@.len(),
        ensures
            final(self).wf(),
            r == (buffer.wf() && buffer.width == old(self).windows@[i as int].buffer.width
                && buffer.height == old(self).windows@[i as int].buffer.height),
            final(self).windows@.len() == old(self).windows@.len(),
            final(self).windows@[i as int].info == info,
            final(self).windows@[i as int].area == old(self).windows@[i as int].area,
            final(self).windows@[i as int].title == old(self).windows@[i as int].title,
            final(self).width == old(self).width,
            final(self).height == old(self).height,
            final(self).next_frame == old(self).next_frame,
            r ==> final(self).windows@[i as int].buffer == buffer,
            !r ==> final(self).windows@[i as int].buffer == old(self).windows@[i as int].buffer,
            forall|j: int|
                0 <= j < old(self).windows@.len() && j != i ==> #[trigger] final(self).windows@[j]
                    == old(self).windows@[j],
            final(self).buffer0 == old(self).buffer0,
            final(self).buffer1 == old(self).buffer1,
            final(self).current == old(self).current,
            final(self).should_exit == old(self).should_exit,
    {
        let ghost ws = self.windows@;
        let mut w = self.windows.remove(i);
        assert(ws[i as int].wf());
        let r = w.set_content(buffer, info);
        self.windows.insert(i, w);
        assert forall|j: int| 0 <= j < self.windows@.len() implies (#[trigger] self.windows@[j]).wf() by {
            if j != i {
                assert(ws[j].wf());
            }
        }
        r
    }
}

} // verus!
