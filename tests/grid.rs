use termgrid::buffer::{Buffer, Cell};
use termgrid::text::{Color, Modifier, Style, BOLD, DIM, ITALIC};
use termgrid::window::{ContentInfo, Rect, Window};

fn symbols_of_row(b: &Buffer, y: u16) -> Vec<String> {
    let mut out = Vec::new();
    for x in 0..b.width {
        out.push(b.content[b.index_of(x, y)].symbol.clone());
    }
    out
}

#[test]
fn it_works() {
    let win = Window::new("", Rect::new(4, 4, 30, 20));
    assert_eq!(win.pos(), (4, 4));
    assert_eq!(win.width(), 30);
    assert_eq!(win.height(), 20);
    assert_eq!(win.interior_size(), (28, 18));
}

#[test]
fn empty_grid_is_blank() {
    let b = Buffer::empty(4, 3);
    assert_eq!(b.content.len(), 12);
    for c in &b.content {
        assert_eq!(*c, Cell::default());
        assert_eq!(c.symbol, " ");
    }
}

#[test]
fn index_and_position_are_row_major() {
    let b = Buffer::empty(10, 10);
    assert_eq!(b.index_of(0, 0), 0);
    assert_eq!(b.index_of(4, 1), 14);
    assert_eq!(b.pos_of(14), (4, 1));
    assert_eq!(b.pos_of(99), (9, 9));
}

#[test]
fn diff_of_equal_grids_is_empty() {
    let a = Buffer::empty(5, 2);
    let mut b = Buffer::empty(5, 2);
    assert!(a.diff(&b).is_empty());
    b.set_string(0, 0, "ab", Style::new());
    let again = b.diff(&b);
    assert!(again.is_empty());
}

#[test]
fn diff_lists_exactly_the_changed_cells() {
    let prev = Buffer::empty(5, 2);
    let mut cur = Buffer::empty(5, 2);
    cur.set_string(1, 0, "x", Style::new());
    cur.set_string(3, 1, "yz", Style::new());
    let d = prev.diff(&cur);
    let pos: Vec<(u16, u16)> = d.iter().map(|e| (e.0, e.1)).collect();
    assert_eq!(pos, vec![(1, 0), (3, 1), (4, 1)]);
    assert_eq!(d[0].2.symbol, "x");
    assert_eq!(d[2].2.symbol, "z");
}

#[test]
fn diff_applied_then_empty() {
    let mut prev = Buffer::empty(6, 2);
    let mut cur = Buffer::empty(6, 2);
    cur.set_string(0, 1, "hello", Style::new().fg(Color::Red));
    let d = prev.diff(&cur);
    assert_eq!(d.len(), 5);
    for (x, y, c) in d {
        let i = prev.index_of(x, y);
        prev.content[i] = c;
    }
    assert!(prev.diff(&cur).is_empty());
}

#[test]
fn set_stringn_stops_at_the_limit() {
    let mut b = Buffer::empty(10, 1);
    let end = b.set_stringn(2, 0, "abcdef", 3, Style::new());
    assert_eq!(end, (5, 0));
    assert_eq!(symbols_of_row(&b, 0), vec![" ", " ", "a", "b", "c", " ", " ", " ", " ", " "]);
}

#[test]
fn set_string_stops_at_the_right_edge() {
    let mut b = Buffer::empty(4, 1);
    b.set_string(1, 0, "abcdef", Style::new());
    assert_eq!(symbols_of_row(&b, 0), vec![" ", "a", "b", "c"]);
}

#[test]
fn wide_grapheme_blanks_the_next_cell() {
    let mut b = Buffer::empty(6, 1);
    b.set_string(0, 0, "xxxxxx", Style::new());
    let end = b.set_stringn(1, 0, "日", usize::MAX, Style::new());
    assert_eq!(end, (3, 0));
    assert_eq!(b.content[1].symbol, "日");
    assert_eq!(b.content[2], Cell::default());
    assert_eq!(b.content[3].symbol, "x");
}

#[test]
fn wide_grapheme_at_last_column_is_truncated() {
    let mut b = Buffer::empty(4, 1);
    let end = b.set_stringn(3, 0, "日", 5, Style::new());
    assert_eq!(end, (3, 0));
    assert_eq!(b.content[3], Cell::default());
    let end = b.set_stringn(0, 0, "a日", 2, Style::new());
    assert_eq!(end, (1, 0));
    assert_eq!(symbols_of_row(&b, 0), vec!["a", " ", " ", " "]);
}

#[test]
fn combining_marks_take_no_cell() {
    let mut b = Buffer::empty(4, 1);
    let end = b.set_stringn(0, 0, "e\u{301}x", usize::MAX, Style::new());
    assert_eq!(end, (2, 0));
    assert_eq!(b.content[0].symbol, "e\u{301}");
    assert_eq!(b.content[1].symbol, "x");
}

#[test]
fn set_lines_writes_each_line_below_the_previous() {
    let mut b = Buffer::empty(3, 2);
    b.set_lines(0, 0, "ab\ncd\nef", Style::new());
    assert_eq!(symbols_of_row(&b, 0), vec!["a", "b", " "]);
    assert_eq!(symbols_of_row(&b, 1), vec!["c", "d", " "]);
}

#[test]
fn set_style_touches_only_the_area() {
    let mut b = Buffer::empty(3, 3);
    b.set_string(0, 1, "abc", Style::new());
    b.set_style(Rect::new(1, 1, 2, 1), Style::new().bg(Color::Blue).add_modifier(Modifier::from_bits_truncate(BOLD)));
    assert_eq!(b.content[3].bg, Color::Reset);
    assert_eq!(b.content[4].bg, Color::Blue);
    assert_eq!(b.content[4].symbol, "b");
    assert_eq!(b.content[5].modifier.bits, BOLD);
    assert_eq!(b.content[7].bg, Color::Reset);
}

#[test]
fn insert_copies_cells_at_an_offset() {
    let mut big = Buffer::empty(4, 3);
    let mut small = Buffer::empty(2, 2);
    small.set_string(0, 0, "ab", Style::new());
    small.set_string(0, 1, "cd", Style::new());
    big.insert(1, 1, &small);
    assert_eq!(symbols_of_row(&big, 0), vec![" ", " ", " ", " "]);
    assert_eq!(symbols_of_row(&big, 1), vec![" ", "a", "b", " "]);
    assert_eq!(symbols_of_row(&big, 2), vec![" ", "c", "d", " "]);
}

#[test]
fn draw_leaves_out_skipped_cells() {
    let mut b = Buffer::empty(2, 2);
    b.content[1].set_skip(true);
    let cells = b.draw();
    let pos: Vec<(u16, u16)> = cells.iter().map(|e| (e.0, e.1)).collect();
    assert_eq!(pos, vec![(0, 0), (0, 1), (1, 1)]);
}

#[test]
fn resize_keeps_the_prefix_and_blanks_the_rest() {
    let mut b = Buffer::empty(2, 1);
    b.set_string(0, 0, "ab", Style::new());
    b.resize(3, 2);
    assert_eq!(b.content.len(), 6);
    assert_eq!(b.content[1].symbol, "b");
    assert_eq!(b.content[5], Cell::default());
    b.reset();
    assert_eq!(b.content[1], Cell::default());
}

#[test]
fn cell_style_and_reset() {
    let mut c = Cell::default();
    c.set_char('q');
    c.set_style(Style::new().fg(Color::Green).add_modifier(Modifier::from_bits_truncate(BOLD | ITALIC)));
    c.set_style(Style::new().remove_modifier(Modifier::from_bits_truncate(ITALIC)));
    assert_eq!(c.symbol, "q");
    assert_eq!(c.fg, Color::Green);
    assert_eq!(c.modifier.bits, BOLD);
    let s = c.style();
    assert_eq!(s.fg, Some(Color::Green));
    assert_eq!(s.add_modifier.bits, BOLD);
    c.reset();
    assert_eq!(c, Cell::default());
}

#[test]
fn patch_onto_default_takes_the_explicit_color() {
    let p = Style::default().patch(Style::new().fg(Color::Red));
    assert_eq!(p.fg, Some(Color::Red));
    assert_eq!(p.bg, None);
    let q = Style::new().fg(Color::Blue).bg(Color::White).patch(Style::new().fg(Color::Red));
    assert_eq!(q.fg, Some(Color::Red));
    assert_eq!(q.bg, Some(Color::White));
}

#[test]
fn patch_keeps_add_and_sub_apart() {
    let a = Style::new().add_modifier(Modifier::from_bits_truncate(BOLD | ITALIC));
    let b = Style::new().remove_modifier(Modifier::from_bits_truncate(ITALIC));
    let p = a.patch(b);
    assert_eq!(p.add_modifier.bits, BOLD);
    assert_eq!(p.sub_modifier.bits, ITALIC);
    let c = Style::new().add_modifier(Modifier::from_bits_truncate(ITALIC | DIM));
    assert_eq!(a.patch(b).patch(c), a.patch(b.patch(c)));
}

#[test]
fn window_moves_and_resizes_saturating() {
    let mut w = Window::new("t", Rect::new(0, 0, 3, 3));
    w.move_by(-1, 2);
    assert_eq!(w.pos(), (0, 2));
    w.move_to(65535, 1);
    w.move_by(5, 0);
    assert_eq!(w.pos(), (65535, 1));
    w.resize_by(-5, 2);
    assert_eq!((w.width(), w.height()), (3, 5));
    assert_eq!(w.interior_size(), (1, 3));
    assert!(!w.set_content(Buffer::empty(2, 2), ContentInfo::default()));
    assert!(w.set_content(Buffer::empty(1, 3), ContentInfo::default()));
}

#[test]
fn window_interior_writes() {
    let mut w = Window::new("w", Rect::new(0, 0, 6, 4));
    let end = w.set_stringn(0, 0, "hello", 3, Style::new());
    assert_eq!(end, (3, 0));
    w.set_string(0, 1, "xy", Style::new());
    w.set_lines(3, 0, "p\nq", Style::new());
    w.set_style(Rect::new(0, 1, 1, 1), Style::new().fg(Color::Cyan));
    let cells = w.content_iter();
    let row0: Vec<String> = cells.iter().filter(|e| e.1 == 0).map(|e| e.2.symbol.clone()).collect();
    assert_eq!(row0, vec!["h", "e", "l", "p"]);
    assert_eq!(cells[4].2.symbol, "x");
    assert_eq!(cells[4].2.fg, Color::Cyan);
    assert_eq!(cells[7].2.symbol, "q");
    w.reset();
    assert!(w.content_iter().iter().all(|e| e.2 == Cell::default()));
}

#[test]
fn set_lines_splits_at_crlf_and_drops_the_final_ending() {
    let mut b = Buffer::empty(3, 3);
    b.set_lines(0, 0, "a\r\nb\n", Style::new());
    assert_eq!(symbols_of_row(&b, 0), vec!["a", " ", " "]);
    assert_eq!(symbols_of_row(&b, 1), vec!["b", " ", " "]);
    assert_eq!(symbols_of_row(&b, 2), vec![" ", " ", " "]);
}
