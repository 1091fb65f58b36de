use termgrid::buffer::{Buffer, Cell};
use termgrid::terminal::{render, Attribute, Command, ModifierDiff, Terminal};
use termgrid::text::{Color, Modifier, Style, BOLD, DIM, ITALIC, REVERSED};
use termgrid::window::{ContentInfo, Rect, Window};
use termgrid::window_manager::{
    key_action, Event, KeyAction, KeyCode, KeyEvent, KeyModifiers, LoopAction, WindowManager,
};

fn attrs(from: u16, to: u16) -> Vec<Command> {
    let mut out = Vec::new();
    ModifierDiff {
        from: Modifier::from_bits_truncate(from),
        to: Modifier::from_bits_truncate(to),
    }
    .queue(&mut out);
    out
}

fn ctrl(code: KeyCode) -> KeyEvent {
    KeyEvent { code, modifiers: KeyModifiers { shift: false, control: true, alt: false } }
}

fn reset_tail() -> Vec<Command> {
    vec![
        Command::SetForeground(Color::Reset),
        Command::SetBackground(Color::Reset),
        Command::SetAttribute(Attribute::Reset),
    ]
}

#[test]
fn adding_dim_to_bold_enables_dim_only() {
    assert_eq!(attrs(BOLD, BOLD | DIM), vec![Command::SetAttribute(Attribute::Dim)]);
}

#[test]
fn removing_bold_keeps_dim() {
    assert_eq!(
        attrs(BOLD | DIM, DIM),
        vec![
            Command::SetAttribute(Attribute::NormalIntensity),
            Command::SetAttribute(Attribute::Dim),
        ]
    );
}

#[test]
fn same_flags_emit_nothing() {
    for s in [0u16, BOLD, BOLD | DIM | ITALIC, 0x1ff] {
        assert!(attrs(s, s).is_empty());
    }
}

#[test]
fn removals_come_before_additions_in_order() {
    assert_eq!(
        attrs(REVERSED | ITALIC, BOLD),
        vec![
            Command::SetAttribute(Attribute::NoReverse),
            Command::SetAttribute(Attribute::NoItalic),
            Command::SetAttribute(Attribute::Bold),
        ]
    );
}

#[test]
fn render_moves_only_when_not_contiguous() {
    let prev = Buffer::empty(4, 2);
    let mut cur = Buffer::empty(4, 2);
    cur.set_string(0, 0, "ab", Style::new().fg(Color::Red));
    cur.set_string(3, 1, "c", Style::new());
    let cmds = render(&prev.diff(&cur));
    let mut expected = vec![
        Command::MoveTo(0, 0),
        Command::SetForeground(Color::Red),
        Command::Print("a".to_string()),
        Command::Print("b".to_string()),
        Command::MoveTo(3, 1),
        Command::SetForeground(Color::Reset),
        Command::Print("c".to_string()),
    ];
    expected.extend(reset_tail());
    assert_eq!(cmds, expected);
}

#[test]
fn manager_bindings() {
    assert_eq!(key_action(ctrl(KeyCode::Char('c'))), KeyAction::Exit);
    assert_eq!(key_action(ctrl(KeyCode::Left)), KeyAction::Move(-1, 0));
    let mut e = ctrl(KeyCode::Down);
    e.modifiers.shift = true;
    assert_eq!(key_action(e), KeyAction::Resize(0, 1));
    assert_eq!(key_action(ctrl(KeyCode::Char('x'))), KeyAction::PassThrough);
    let plain = KeyEvent { code: KeyCode::Left, modifiers: KeyModifiers::default() };
    assert_eq!(key_action(plain), KeyAction::PassThrough);
}

#[test]
fn cycling_and_moving_windows() {
    let mut wm = WindowManager::new(20, 10);
    wm.add_window(Window::new("a", Rect::new(0, 0, 5, 5)));
    wm.add_window(Window::new("b", Rect::new(5, 0, 5, 5)));
    wm.add_window(Window::new("c", Rect::new(10, 0, 5, 5)));
    assert!(!wm.handle_manager_keys(ctrl(KeyCode::PageDown)));
    assert_eq!(wm.window(0).title, "b");
    assert_eq!(wm.window(2).title, "a");
    assert!(!wm.handle_manager_keys(ctrl(KeyCode::PageUp)));
    assert_eq!(wm.window(0).title, "a");
    assert!(!wm.handle_manager_keys(ctrl(KeyCode::Right)));
    assert_eq!(wm.window(0).pos(), (1, 0));
    assert!(wm.handle_manager_keys(ctrl(KeyCode::Char('z'))));
    assert_eq!(wm.handle_event(Event::Key(ctrl(KeyCode::Char('c')))), LoopAction::Render);
    assert!(wm.should_exit());
}

#[test]
fn events_and_timing() {
    let mut wm = WindowManager::new(8, 4);
    assert_eq!(wm.poll_timeout(20), 30);
    assert_eq!(wm.poll_timeout(80), 0);
    wm.on_timeout(80);
    assert_eq!(wm.poll_timeout(100), 30);
    assert_eq!(wm.handle_event(Event::Mouse), LoopAction::Ignore);
    assert_eq!(wm.handle_event(Event::Paste("x".to_string())), LoopAction::Ignore);
    assert_eq!(wm.handle_event(Event::Resize(10, 5)), LoopAction::Render);
    assert_eq!(wm.buffer0.content.len(), 50);
    assert_eq!(wm.buffer1.content.len(), 50);
    let k = KeyEvent { code: KeyCode::Char('q'), modifiers: KeyModifiers::default() };
    assert_eq!(wm.handle_event(Event::Key(k)), LoopAction::Render);
    wm.add_window(Window::new("w", Rect::new(0, 0, 4, 4)));
    assert_eq!(wm.handle_event(Event::Key(k)), LoopAction::Forward(k));
    let mut grow = ctrl(KeyCode::Right);
    grow.modifiers.shift = true;
    assert_eq!(wm.handle_event(Event::Key(grow)), LoopAction::RedrawFocused);
    assert_eq!(wm.window(0).width(), 5);
    assert_eq!(wm.handle_event(Event::Key(ctrl(KeyCode::Left))), LoopAction::Render);
}

#[test]
fn buffers_alternate_and_the_new_one_is_blank() {
    let mut wm = WindowManager::new(12, 6);
    wm.add_window(Window::new("x", Rect::new(1, 1, 6, 4)));
    for frame in 0..4 {
        assert_eq!(wm.current, frame % 2);
        wm.render_frame();
        assert_eq!(wm.current, (frame + 1) % 2);
        let cur = if wm.current == 0 { &wm.buffer0 } else { &wm.buffer1 };
        assert!(cur.content.iter().all(|c| *c == Cell::default()));
    }
}

fn content(text: &str, size: (u16, u16)) -> Buffer {
    let mut b = Buffer::empty(size.0, size.1);
    b.set_string(0, 0, text, Style::new());
    b
}

#[test]
fn end_to_end_frames_send_only_what_changed() {
    let mut wm = WindowManager::new(40, 30);
    wm.add_window(Window::new("Test", Rect::new(4, 4, 30, 20)));
    let size = wm.window(0).interior_size();
    assert!(wm.set_window_content(0, content("number: 0", size), ContentInfo::default()));
    let first = wm.render_frame();
    let printed: String = first
        .iter()
        .filter_map(|c| match c {
            Command::Print(s) => Some(s.clone()),
            _ => None,
        })
        .collect();
    assert!(printed.starts_with("╭Test─"));
    assert!(printed.contains("│number:0│"));
    assert!(printed.contains("╯"));
    assert!(wm.set_window_content(0, content("number: 1", size), ContentInfo::default()));
    let second = wm.render_frame();
    let mut expected = vec![Command::MoveTo(13, 5), Command::Print("1".to_string())];
    expected.extend(reset_tail());
    assert_eq!(second, expected);
}

#[test]
fn scrollbar_thumb_moves() {
    let mut wm = WindowManager::new(10, 10);
    wm.add_window(Window::new("", Rect::new(0, 0, 5, 10)));
    let size = wm.window(0).interior_size();
    let info = ContentInfo { show_scrollbar: true, scroll_permille: 0 };
    assert!(wm.set_window_content(0, Buffer::empty(size.0, size.1), info));
    wm.render_frame();
    let screen = if wm.current == 0 { &wm.buffer1 } else { &wm.buffer0 };
    let col: Vec<String> = (0..10).map(|y| screen.content[screen.index_of(4, y)].symbol.clone()).collect();
    assert_eq!(col, vec!["╮", "▲", "█", "░", "░", "░", "░", "░", "▼", "╯"]);
    let info = ContentInfo { show_scrollbar: true, scroll_permille: 1000 };
    assert!(wm.set_window_content(0, Buffer::empty(size.0, size.1), info));
    let cmds = wm.render_frame();
    let mut expected = vec![
        Command::MoveTo(4, 2),
        Command::Print("░".to_string()),
        Command::MoveTo(4, 6),
        Command::Print("█".to_string()),
    ];
    expected.extend(reset_tail());
    assert_eq!(cmds, expected);
}

#[test]
fn terminal_renders_only_new_cells() {
    let mut term = Terminal::init(10, 6);
    let mut win = Window::new("t", Rect::new(1, 1, 5, 4));
    let mut grid = Buffer::empty(3, 2);
    grid.set_string(0, 0, "ab", Style::new());
    assert!(win.set_content(grid, ContentInfo::default()));
    let cmds = term.draw(&win, (7, 7));
    let mut expected = vec![
        Command::MoveTo(2, 2),
        Command::Print("a".to_string()),
        Command::Print("b".to_string()),
    ];
    expected.extend(reset_tail());
    expected.push(Command::MoveTo(7, 7));
    assert_eq!(cmds, expected);
    let again = term.put(&win, (10, 6), (0, 0));
    let mut expected = reset_tail();
    expected.push(Command::MoveTo(0, 0));
    assert_eq!(again, expected);
    term.resize(12, 6);
    assert!(term.buffer.content.iter().all(|c| *c == Cell::default()));
}

#[test]
fn colors_come_before_emphasis() {
    let prev = Buffer::empty(2, 1);
    let mut cur = Buffer::empty(2, 1);
    cur.set_string(
        0,
        0,
        "r",
        Style::new().fg(Color::Red).add_modifier(Modifier::from_bits_truncate(BOLD)),
    );
    let mut expected = vec![
        Command::MoveTo(0, 0),
        Command::SetForeground(Color::Red),
        Command::SetAttribute(Attribute::Bold),
        Command::Print("r".to_string()),
    ];
    expected.extend(reset_tail());
    assert_eq!(render(&prev.diff(&cur)), expected);
}

#[test]
fn terminal_second_pass_sends_no_cell() {
    let mut term = Terminal::init(12, 8);
    let mut win = Window::new("w", Rect::new(2, 1, 6, 5));
    let mut grid = Buffer::empty(4, 3);
    grid.set_lines(0, 0, "abcd\nef", Style::new().fg(Color::Yellow));
    assert!(win.set_content(grid, ContentInfo::default()));
    let first = term.draw(&win, (1, 1));
    assert!(first.iter().any(|c| *c == Command::Print("f".to_string())));
    let second = term.draw(&win, (1, 1));
    let mut expected = reset_tail();
    expected.push(Command::MoveTo(1, 1));
    assert_eq!(second, expected);
}
