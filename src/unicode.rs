//! Text segmentation and display widths, from the unicode crates.

use unicode_segmentation::UnicodeSegmentation;
use unicode_width::UnicodeWidthStr;
use vstd::prelude::*;

verus! {

/// The extended grapheme clusters of a text, in order.
pub uninterp spec fn graphemes_of(s: Seq<char>) -> Seq<Seq<char>>;

/// The number of terminal columns a text takes.
pub uninterp spec fn str_width(s: Seq<char>) -> nat;

/// The pieces of a text between its `\n` characters, in order: one more
/// than there are `\n` characters.
pub open spec fn newline_parts(s: Seq<char>) -> Seq<Seq<char>>
    decreases s.len(),
{
    if s.len() == 0 {
        seq![seq![]]
    } else if s.last() == '\n' {
        newline_parts(s.drop_last()).push(seq![])
    } else {
        let p = newline_parts(s.drop_last());
        p.update(p.len() - 1, p.last().push(s.last()))
    }
}

/// `line` without one `\r` at its end, if it has one.
pub open spec fn strip_carriage_return(line: Seq<char>) -> Seq<char> {
    if line.len() > 0 && line.last() == '\r' {
        line.drop_last()
    } else {
        line
    }
}

/// The lines of a text: split at each `\n` or `\r\n`, without the line
/// terminators; the final line ending is optional, so a text that ends with
/// one has no empty last line, and an empty text has no line.
pub open spec fn split_lines(s: Seq<char>) -> Seq<Seq<char>> {
    let p = newline_parts(s);
    let n = if p.last().len() == 0 {
        p.len() - 1
    } else {
        p.len() as int
    };
    Seq::new(
        n as nat,
        |i: int|
            if i < p.len() - 1 {
                strip_carriage_return(p[i])
            } else {
                p[i]
            },
    )
}

/// Relies on `UnicodeSegmentation::graphemes(s, true)` of unicode-segmentation:
/// the extended grapheme clusters of `s`, in order; none for an empty text.
#[verifier::external_body]
pub(crate) fn graphemes(s: &str) -> (r: Vec<String>)
    ensures
        r@.len() == graphemes_of(s@).len(),
        forall|i: int| 0 <= i < r@.len() ==> #[trigger] r@[i]@ == graphemes_of(s@)[i],
        s@.len() == 0 ==> r@.len() == 0,
{
    s.graphemes(true).map(|g| g.to_string()).collect()
}

/// Relies on `UnicodeWidthStr::width` of unicode-width: the displayed width
/// of `s` in columns.
#[verifier::external_body]
pub(crate) fn display_width(s: &str) -> (r: usize)
    ensures
        r == str_width(s@),
{
    UnicodeWidthStr::width(s)
}

/// Relies on `str::lines` of std, as its documentation states it: the lines
/// of `s`, split at `\n` or `\r\n`, without the terminators, the final line
/// ending being optional.
#[verifier::external_body]
pub(crate) fn lines(s: &str) -> (r: Vec<String>)
    ensures
        r@.len() == split_lines(s@).len(),
        forall|i: int| 0 <= i < r@.len() ==> #[trigger] r@[i]@ == split_lines(s@)[i],
{
    s.lines().map(|l| l.to_string()).collect()
}

} // verus!
