//! Colors, text emphasis flags and styles.

use vstd::prelude::*;

verus! {

/// A terminal color, or `Reset` for the terminal's default.
#[derive(Debug, Clone, Copy, PartialEq, Eq, Structural, Hash)]
pub enum Color {
    Reset,
    Black,
    DarkGrey,
    Red,
    DarkRed,
    Green,
    DarkGreen,
    Yellow,
    DarkYellow,
    Blue,
    DarkBlue,
    Magenta,
    DarkMagenta,
    Cyan,
    DarkCyan,
    White,
    Grey,
    Rgb { r: u8, g: u8, b: u8 },
    AnsiValue(u8),
}

/// The mask of all defined emphasis bits.
pub const ALL_BITS: u16 = 0x01ff;

pub const BOLD: u16 = 0x0001;
pub const DIM: u16 = 0x0002;
pub const ITALIC: u16 = 0x0004;
pub const UNDERLINED: u16 = 0x0008;
pub const SLOW_BLINK: u16 = 0x0010;
pub const RAPID_BLINK: u16 = 0x0020;
pub const REVERSED: u16 = 0x0040;
pub const HIDDEN: u16 = 0x0080;
pub const CROSSED_OUT: u16 = 0x0100;

/// A set of text emphasis flags, one bit each.
#[derive(Debug, Default, Clone, Copy, PartialEq, Eq, Structural, Hash)]
pub struct Modifier {
    pub bits: u16,
}

impl Modifier {
    /// The flags among `bits` that are defined; the others are dropped.
    pub fn from_bits_truncate(bits: u16) -> (r: Modifier)
        ensures
            r.bits == bits & ALL_BITS,
    {
        Modifier { bits: bits & ALL_BITS }
    }

    /// The set of no flags.
    pub fn empty() -> (r: Modifier)
        ensures
            r.bits == 0,
    {
        Modifier { bits: 0 }
    }

    /// The set of every defined flag.
    pub fn all() -> (r: Modifier)
        ensures
            r.bits == ALL_BITS,
    {
        Modifier { bits: ALL_BITS }
    }

    pub fn is_empty(&self) -> (r: bool)
        ensures
            r == (self.bits == 0),
    {
        self.bits == 0
    }

    /// Whether every flag of `other` is set in `self`.
    pub fn contains(&self, other: Modifier) -> (r: bool)
        ensures
            r == (self.bits & other.bits == other.bits),
    {
        self.bits & other.bits == other.bits
    }

    pub fn union(self, other: Modifier) -> (r: Modifier)
        ensures
            r.bits == self.bits | other.bits,
    {
        Modifier { bits: self.bits | other.bits }
    }

    /// The flags of `self` that are not in `other`.
    pub fn difference(self, other: Modifier) -> (r: Modifier)
        ensures
            r.bits == self.bits & !other.bits,
    {
        Modifier { bits: self.bits & !other.bits }
    }

    pub fn insert(&mut self, other: Modifier)
        ensures
            final(self).bits == old(self).bits | other.bits,
    {
        self.bits = self.bits | other.bits;
    }

    pub fn remove(&mut self, other: Modifier)
        ensures
            final(self).bits == old(self).bits & !other.bits,
    {
        self.bits = self.bits & !other.bits;
    }
}

/// Whether the flag set `m` holds every bit of `flag`.
pub open spec fn has(m: u16, flag: u16) -> bool {
    m & flag == flag
}

/// Optional colors and a pair of emphasis sets: the flags to switch on and
/// the flags to switch off.
#[derive(Debug, Clone, Copy, PartialEq, Eq, Structural, Hash)]
pub struct Style {
    pub fg: Option<Color>,
    pub bg: Option<Color>,
    pub add_modifier: Modifier,
    pub sub_modifier: Modifier,
}

impl Style {
    /// The flags to switch on and off are disjoint.
    pub open spec fn wf(self) -> bool {
        self.add_modifier.bits & self.sub_modifier.bits == 0
    }

    /// The result of applying `other` on top of `self`.
    pub open spec fn patch_spec(self, other: Style) -> Style {
        Style {
            fg: if other.fg is Some { other.fg } else { self.fg },
            bg: if other.bg is Some { other.bg } else { self.bg },
            add_modifier: Modifier {
                bits: (self.add_modifier.bits & !other.sub_modifier.bits) | other.add_modifier.bits,
            },
            sub_modifier: Modifier {
                bits: (self.sub_modifier.bits & !other.add_modifier.bits) | other.sub_modifier.bits,
            },
        }
    }

    /// A style that changes nothing.
    pub fn new() -> (r: Style)
        ensures
            r == Style::new_spec(),
            r.fg is None,
            r.bg is None,
            r.add_modifier.bits == 0,
            r.sub_modifier.bits == 0,
    {
        Style { fg: None, bg: None, add_modifier: Modifier::empty(), sub_modifier: Modifier::empty() }
    }

    /// A style that resets both colors and switches every flag off.
    pub fn reset() -> (r: Style)
        ensures
            r.fg == Some(Color::Reset),
            r.bg == Some(Color::Reset),
            r.add_modifier.bits == 0,
            r.sub_modifier.bits == ALL_BITS,
    {
        Style {
            fg: Some(Color::Reset),
            bg: Some(Color::Reset),
            add_modifier: Modifier::empty(),
            sub_modifier: Modifier::all(),
        }
    }

    /// Sets the foreground color.
    pub fn fg(self, color: Color) -> (r: Style)
        ensures
            r == (Style { fg: Some(color), ..self }),
    {
        Style { fg: Some(color), ..self }
    }

    /// Sets the background color.
    pub fn bg(self, color: Color) -> (r: Style)
        ensures
            r == (Style { bg: Some(color), ..self }),
    {
        Style { bg: Some(color), ..self }
    }

    /// Adds flags to switch on; they leave the set of flags to switch off.
    pub fn add_modifier(self, modifier: Modifier) -> (r: Style)
        ensures
            r.fg == self.fg,
            r.bg == self.bg,
            r.add_modifier.bits == self.add_modifier.bits | modifier.bits,
            r.sub_modifier.bits == self.sub_modifier.bits & !modifier.bits,
            self.wf() ==> r.wf(),
    {
        let r = Style {
            sub_modifier: self.sub_modifier.difference(modifier),
            add_modifier: self.add_modifier.union(modifier),
            ..self
        };
        proof {
            let (a, s, m) = (self.add_modifier.bits, self.sub_modifier.bits, modifier.bits);
            assert(a & s == 0 ==> (a | m) & (s & !m) == 0) by (bit_vector);
        }
        r
    }

    /// Adds flags to switch off; they leave the set of flags to switch on.
    pub fn remove_modifier(self, modifier: Modifier) -> (r: Style)
        ensures
            r.fg == self.fg,
            r.bg == self.bg,
            r.add_modifier.bits == self.add_modifier.bits & !modifier.bits,
            r.sub_modifier.bits == self.sub_modifier.bits | modifier.bits,
            self.wf() ==> r.wf(),
    {
        let r = Style {
            add_modifier: self.add_modifier.difference(modifier),
            sub_modifier: self.sub_modifier.union(modifier),
            ..self
        };
        proof {
            let (a, s, m) = (self.add_modifier.bits, self.sub_modifier.bits, modifier.bits);
            assert(a & s == 0 ==> (a & !m) & (s | m) == 0) by (bit_vector);
        }
        r
    }

    /// Combines two styles: the explicit colors of `other` win, every flag
    /// that `other` switches on is on and every flag it switches off is off.
    pub fn patch(self, other: Style) -> (r: Style)
        ensures
            r == self.patch_spec(other),
            other.fg is Some ==> r.fg == other.fg,
            other.fg is None ==> r.fg == self.fg,
            other.bg is Some ==> r.bg == other.bg,
            other.bg is None ==> r.bg == self.bg,
            has(r.add_modifier.bits, other.add_modifier.bits),
            other.wf() ==> r.add_modifier.bits & other.sub_modifier.bits == 0,
            has(r.sub_modifier.bits, other.sub_modifier.bits),
            other.wf() ==> r.sub_modifier.bits & other.add_modifier.bits == 0,
            self.wf() && other.wf() ==> r.wf(),
    {
        let mut add = self.add_modifier;
        let mut sub = self.sub_modifier;
        add.remove(other.sub_modifier);
        add.insert(other.add_modifier);
        sub.remove(other.add_modifier);
        sub.insert(other.sub_modifier);
        let fg = match other.fg {
            Some(c) => Some(c),
            None => self.fg,
        };
        let bg = match other.bg {
            Some(c) => Some(c),
            None => self.bg,
        };
        proof {
            let (a1, s1, a2, s2) = (
                self.add_modifier.bits,
                self.sub_modifier.bits,
                other.add_modifier.bits,
                other.sub_modifier.bits,
            );
            assert(((a1 & !s2) | a2) & a2 == a2) by (bit_vector);
            assert(((s1 & !a2) | s2) & s2 == s2) by (bit_vector);
            assert(a2 & s2 == 0 ==> ((a1 & !s2) | a2) & s2 == 0) by (bit_vector);
            assert(a2 & s2 == 0 ==> ((s1 & !a2) | s2) & a2 == 0) by (bit_vector);
            assert(a1 & s1 == 0 && a2 & s2 == 0 ==> ((a1 & !s2) | a2) & ((s1 & !a2) | s2) == 0)
                by (bit_vector);
        }
        Style { fg, bg, add_modifier: add, sub_modifier: sub }
    }
}

impl Default for Style {
    fn default() -> (r: Style)
        ensures
            r == (Style {
                fg: None,
                bg: None,
                add_modifier: Modifier { bits: 0 },
                sub_modifier: Modifier { bits: 0 },
            }),
    {
        Style::new()
    }
}

/// Patching is associative: applying `b` and then `c` on top of `a` is the
/// same as applying the combination of `b` and `c` on top of `a`.
pub proof fn lemma_patch_associative(a: Style, b: Style, c: Style)
    ensures
        a.patch_spec(b).patch_spec(c) == a.patch_spec(b.patch_spec(c)),
{
    let (a1, s1, a2, s2, a3, s3) = (
        a.add_modifier.bits,
        a.sub_modifier.bits,
        b.add_modifier.bits,
        b.sub_modifier.bits,
        c.add_modifier.bits,
        c.sub_modifier.bits,
    );
    assert((((a1 & !s2) | a2) & !s3) | a3 == (a1 & !((s2 & !a3) | s3)) | ((a2 & !s3) | a3))
        by (bit_vector);
    assert((((s1 & !a2) | s2) & !a3) | s3 == (s1 & !((a2 & !s3) | a3)) | ((s2 & !a3) | s3))
        by (bit_vector);
}

/// Patching onto the empty style keeps every explicit field of the patch.
pub proof fn lemma_patch_onto_default(s: Style)
    ensures
        Style::new_spec().patch_spec(s) == s,
{
    let (a, b) = (s.add_modifier.bits, s.sub_modifier.bits);
    assert((0u16 & !b) | a == a) by (bit_vector);
    assert((0u16 & !a) | b == b) by (bit_vector);
}

impl Style {
    /// The style that changes nothing.
    pub open spec fn new_spec() -> Style {
        Style { fg: None, bg: None, add_modifier: Modifier { bits: 0 }, sub_modifier: Modifier { bits: 0 } }
    }
}

} // verus!
