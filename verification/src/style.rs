//! Colors, text attributes and the SGR escape sequences that set them.
use vstd::prelude::*;

use crate::chars::{decimal, push_decimal, push_str};

verus! {

/// A terminal color.
#[derive(Debug, Clone, Copy, PartialEq, Eq, Structural)]
pub enum Color {
    Black,
    Red,
    Green,
    Yellow,
    Blue,
    Magenta,
    Cyan,
    White,
    BrightBlack,
    BrightRed,
    BrightGreen,
    BrightYellow,
    BrightBlue,
    BrightMagenta,
    BrightCyan,
    BrightWhite,
    Default,
    Indexed(u8),
    Rgb(u8, u8, u8),
}

/// Something that writes itself as terminal output.
pub trait AnsiDisplay {
    /// The characters written.
    spec fn ansi(&self) -> Seq<char>;

    fn write_ansi(&self, out: &mut Vec<char>)
        ensures
            final(out)@ == old(out)@ + self.ansi(),
    ;
}

impl AnsiDisplay for str {
    open spec fn ansi(&self) -> Seq<char> {
        self@
    }

    fn write_ansi(&self, out: &mut Vec<char>) {
        push_str(out, self);
    }
}

impl AnsiDisplay for String {
    open spec fn ansi(&self) -> Seq<char> {
        self@
    }

    fn write_ansi(&self, out: &mut Vec<char>) {
        push_str(out, self.as_str());
    }
}

/// The escape that opens a control sequence: ESC `[`.
pub open spec fn csi() -> Seq<char> {
    seq!['\x1b', '[']
}

fn push_csi(out: &mut Vec<char>)
    ensures
        final(out)@ == old(out)@ + csi(),
{
    out.push('\x1b');
    out.push('[');
    assert(final(out)@ =~= old(out)@ + csi());
}

/// A set of SGR text attributes, one bit each.
#[derive(Debug, Clone, Copy, PartialEq, Eq, Structural)]
pub struct Attributes {
    bits: u16,
}

/// The number of attribute flags.
pub open spec fn attribute_count() -> nat {
    14
}

pub open spec fn has_bit(bits: u16, i: nat) -> bool {
    (bits >> (i as u16)) & 1u16 == 1u16
}

impl Attributes {
    /// Only the defined flags are ever set.
    #[verifier::type_invariant]
    spec fn inv(self) -> bool {
        self.bits < 0x4000
    }

    pub closed spec fn spec_bits(self) -> u16 {
        self.bits
    }

    /// The flag of bit `i`.
    pub open spec fn flag_bits(i: nat) -> u16 {
        (1u16 << (i as u16)) as u16
    }

    fn flag(i: u16) -> (r: Self)
        requires
            i < 14,
        ensures
            r.spec_bits() == Self::flag_bits(i as nat),
    {
        let b: u16 = 1u16 << i;
        assert(b < 0x4000) by (bit_vector)
            requires
                i < 14,
                b == 1u16 << i,
        ;
        Attributes { bits: b }
    }

    pub fn empty() -> (r: Self)
        ensures
            r.spec_bits() == 0,
    {
        Attributes { bits: 0 }
    }

    pub fn reset() -> (r: Self)
        ensures
            r.spec_bits() == 1,
    {
        Attributes { bits: 1 }
    }

    pub fn bold() -> (r: Self)
        ensures
            r.spec_bits() == 2,
    {
        Attributes { bits: 2 }
    }

    pub fn faint() -> (r: Self)
        ensures
            r.spec_bits() == 4,
    {
        Attributes { bits: 4 }
    }

    pub fn italic() -> (r: Self)
        ensures
            r.spec_bits() == 8,
    {
        Attributes { bits: 8 }
    }

    pub fn underline() -> (r: Self)
        ensures
            r.spec_bits() == 16,
    {
        Attributes { bits: 16 }
    }

    pub fn reverse() -> (r: Self)
        ensures
            r.spec_bits() == 32,
    {
        Attributes { bits: 32 }
    }

    pub fn conceal() -> (r: Self)
        ensures
            r.spec_bits() == 64,
    {
        Attributes { bits: 64 }
    }

    pub fn crossed_out() -> (r: Self)
        ensures
            r.spec_bits() == 128,
    {
        Attributes { bits: 128 }
    }

    pub fn not_bold() -> (r: Self)
        ensures
            r.spec_bits() == 256,
    {
        Attributes { bits: 256 }
    }

    pub fn not_italic() -> (r: Self)
        ensures
            r.spec_bits() == 512,
    {
        Attributes { bits: 512 }
    }

    pub fn not_underline() -> (r: Self)
        ensures
            r.spec_bits() == 1024,
    {
        Attributes { bits: 1024 }
    }

    pub fn not_reverse() -> (r: Self)
        ensures
            r.spec_bits() == 2048,
    {
        Attributes { bits: 2048 }
    }

    pub fn not_conceal() -> (r: Self)
        ensures
            r.spec_bits() == 4096,
    {
        Attributes { bits: 4096 }
    }

    pub fn not_crossed_out() -> (r: Self)
        ensures
            r.spec_bits() == 8192,
    {
        Attributes { bits: 8192 }
    }

    pub fn bits(&self) -> (r: u16)
        ensures
            r == self.spec_bits(),
    {
        self.bits
    }

    /// All flags set in either.
    pub fn union(self, other: Self) -> (r: Self)
        ensures
            r.spec_bits() == self.spec_bits() | other.spec_bits(),
    {
        proof {
            use_type_invariant(&self);
            use_type_invariant(&other);
        }
        let a: u16 = self.bits;
        let b: u16 = other.bits;
        assert(a | b < 0x4000) by (bit_vector)
            requires
                a < 0x4000,
                b < 0x4000,
        ;
        Attributes { bits: a | b }
    }

    /// Whether every flag of `other` is set.
    pub fn contains(&self, other: Self) -> (r: bool)
        ensures
            r == (self.spec_bits() & other.spec_bits() == other.spec_bits()),
    {
        self.bits & other.bits == other.bits
    }

    /// The flags that are set, lowest bit first.
    pub fn iter(&self) -> (r: Vec<Attributes>)
        ensures
            r@.map_values(|a: Attributes| a.spec_bits()) == set_flags(self.spec_bits(), 0),
    {
        let mut out: Vec<Attributes> = Vec::new();
        let mut i: u16 = 14;
        proof {
            lemma_set_flags_end(self.spec_bits(), 14);
        }
        while i > 0
            invariant
                i <= 14,
                out@.map_values(|a: Attributes| a.spec_bits()) == set_flags(self.bits, i as nat),
            decreases i,
        {
            i = i - 1;
            let b: u16 = (self.bits >> i) & 1u16;
            if b == 1u16 {
                let f = Self::flag(i);
                out.insert(0, f);
            }
            assert(out@.map_values(|a: Attributes| a.spec_bits()) =~= set_flags(self.bits, i as nat));
        }
        out
    }
}

/// The single-flag bit patterns set in `bits`, from flag `i` up.
pub open spec fn set_flags(bits: u16, i: nat) -> Seq<u16>
    decreases attribute_count() - i,
{
    if i >= attribute_count() {
        Seq::empty()
    } else if has_bit(bits, i) {
        seq![Attributes::flag_bits(i)] + set_flags(bits, i + 1)
    } else {
        set_flags(bits, i + 1)
    }
}

/// The union of two sets of attributes contains each of them.
pub proof fn lemma_union_contains(a: Attributes, b: Attributes)
    ensures
        (a.spec_bits() | b.spec_bits()) & a.spec_bits() == a.spec_bits(),
        (a.spec_bits() | b.spec_bits()) & b.spec_bits() == b.spec_bits(),
{
    let (x, y) = (a.spec_bits(), b.spec_bits());
    assert((x | y) & x == x && (x | y) & y == y) by (bit_vector);
}

proof fn lemma_set_flags_end(bits: u16, i: nat)
    requires
        i >= attribute_count(),
    ensures
        set_flags(bits, i) == Seq::<u16>::empty(),
{
}

/// A Select Graphic Rendition parameter.
#[derive(Debug, Clone, Copy, PartialEq, Eq, Structural)]
pub enum Sgr {
    Reset,
    Bold,
    Faint,
    Italic,
    Underline,
    Reverse,
    Conceal,
    CrossedOut,
    NotBold,
    NotItalic,
    NotUnderline,
    NotReverse,
    NotConceal,
    NotCrossedOut,
    Fg(Color),
    Bg(Color),
}

/// The SGR number of a foreground color other than `Indexed` and `Rgb`.
pub open spec fn fg_number(c: Color) -> nat {
    match c {
        Color::Black => 30,
        Color::Red => 31,
        Color::Green => 32,
        Color::Yellow => 33,
        Color::Blue => 34,
        Color::Magenta => 35,
        Color::Cyan => 36,
        Color::White => 37,
        Color::Default => 39,
        Color::BrightBlack => 90,
        Color::BrightRed => 91,
        Color::BrightGreen => 92,
        Color::BrightYellow => 93,
        Color::BrightBlue => 94,
        Color::BrightMagenta => 95,
        Color::BrightCyan => 96,
        Color::BrightWhite => 97,
        _ => 0,
    }
}

/// The SGR number of a parameter that is a single number.
pub open spec fn sgr_number(s: Sgr) -> nat {
    match s {
        Sgr::Reset => 0,
        Sgr::Bold => 1,
        Sgr::Faint => 2,
        Sgr::Italic => 3,
        Sgr::Underline => 4,
        Sgr::Reverse => 7,
        Sgr::Conceal => 8,
        Sgr::CrossedOut => 9,
        Sgr::NotBold => 22,
        Sgr::NotItalic => 23,
        Sgr::NotUnderline => 24,
        Sgr::NotReverse => 27,
        Sgr::NotConceal => 28,
        Sgr::NotCrossedOut => 29,
        Sgr::Fg(c) => fg_number(c),
        Sgr::Bg(c) => fg_number(c) + 10,
    }
}

/// A 256-color or true-color parameter, after its `38` or `48`.
pub open spec fn extended_color(c: Color) -> Seq<char> {
    match c {
        Color::Indexed(n) => seq![';', '5', ';'] + decimal(n as nat),
        Color::Rgb(r, g, b) => seq![';', '2', ';'] + decimal(r as nat) + seq![';'] + decimal(
            g as nat,
        ) + seq![';'] + decimal(b as nat),
        _ => Seq::empty(),
    }
}

pub open spec fn is_extended(c: Color) -> bool {
    c is Indexed || c is Rgb
}

/// The parameter text of an SGR, as it goes between `ESC [` and `m`.
pub open spec fn sgr_code(s: Sgr) -> Seq<char> {
    match s {
        Sgr::Fg(c) => if is_extended(c) {
            decimal(38) + extended_color(c)
        } else {
            decimal(sgr_number(s))
        },
        Sgr::Bg(c) => if is_extended(c) {
            decimal(48) + extended_color(c)
        } else {
            decimal(sgr_number(s))
        },
        _ => decimal(sgr_number(s)),
    }
}

/// Each parameter's text followed by `;`.
pub open spec fn sgr_list_code(list: Seq<Sgr>) -> Seq<char>
    decreases list.len(),
{
    if list.len() == 0 {
        Seq::empty()
    } else {
        sgr_list_code(list.drop_last()) + sgr_code(list.last()) + seq![';']
    }
}

fn fg_number_of(c: Color) -> (r: u64)
    requires
        !is_extended(c),
    ensures
        r == fg_number(c),
{
    match c {
        Color::Black => 30,
        Color::Red => 31,
        Color::Green => 32,
        Color::Yellow => 33,
        Color::Blue => 34,
        Color::Magenta => 35,
        Color::Cyan => 36,
        Color::White => 37,
        Color::Default => 39,
        Color::BrightBlack => 90,
        Color::BrightRed => 91,
        Color::BrightGreen => 92,
        Color::BrightYellow => 93,
        Color::BrightBlue => 94,
        Color::BrightMagenta => 95,
        Color::BrightCyan => 96,
        Color::BrightWhite => 97,
        _ => 0,
    }
}

fn write_extended_color(c: Color, out: &mut Vec<char>)
    ensures
        final(out)@ == old(out)@ + extended_color(c),
{
    let ghost start = out@;
    match c {
        Color::Indexed(n) => {
            out.push(';');
            out.push('5');
            out.push(';');
            push_decimal(out, n as u64);
            assert(out@ =~= start + extended_color(c));
        },
        Color::Rgb(r, g, b) => {
            out.push(';');
            out.push('2');
            out.push(';');
            push_decimal(out, r as u64);
            out.push(';');
            push_decimal(out, g as u64);
            out.push(';');
            push_decimal(out, b as u64);
            assert(out@ =~= start + extended_color(c));
        },
        _ => {
            assert(out@ =~= start + extended_color(c));
        },
    }
}

impl Sgr {
    pub fn reset_all() -> (r: Self)
        ensures
            r == Sgr::Reset,
    {
        Sgr::Reset
    }

    pub fn reset_fg() -> (r: Self)
        ensures
            r == Sgr::Fg(Color::Default),
    {
        Sgr::Fg(Color::Default)
    }

    pub fn reset_bg() -> (r: Self)
        ensures
            r == Sgr::Bg(Color::Default),
    {
        Sgr::Bg(Color::Default)
    }

    /// Writes the parameter text, without `ESC [` and `m`.
    pub fn write_ansi_code(&self, out: &mut Vec<char>)
        ensures
            final(out)@ == old(out)@ + sgr_code(*self),
    {
        let n: u64 = match *self {
            Sgr::Reset => 0,
            Sgr::Bold => 1,
            Sgr::Faint => 2,
            Sgr::Italic => 3,
            Sgr::Underline => 4,
            Sgr::Reverse => 7,
            Sgr::Conceal => 8,
            Sgr::CrossedOut => 9,
            Sgr::NotBold => 22,
            Sgr::NotItalic => 23,
            Sgr::NotUnderline => 24,
            Sgr::NotReverse => 27,
            Sgr::NotConceal => 28,
            Sgr::NotCrossedOut => 29,
            Sgr::Fg(c) => match c {
                Color::Indexed(_) => 38,
                Color::Rgb(_, _, _) => 38,
                _ => fg_number_of(c),
            },
            Sgr::Bg(c) => match c {
                Color::Indexed(_) => 48,
                Color::Rgb(_, _, _) => 48,
                _ => fg_number_of(c) + 10,
            },
        };
        push_decimal(out, n);
        match *self {
            Sgr::Fg(c) => write_extended_color(c, out),
            Sgr::Bg(c) => write_extended_color(c, out),
            _ => {},
        }
        assert(final(out)@ =~= old(out)@ + sgr_code(*self));
    }
}

/// An SGR written as a whole escape sequence.
impl AnsiDisplay for Sgr {
    open spec fn ansi(&self) -> Seq<char> {
        csi() + sgr_code(*self) + seq!['m']
    }

    fn write_ansi(&self, out: &mut Vec<char>) {
        let ghost start = out@;
        push_csi(out);
        self.write_ansi_code(out);
        out.push('m');
        assert(out@ =~= start + self.ansi());
    }
}

fn write_sgr_list(list: &[Sgr], out: &mut Vec<char>)
    ensures
        final(out)@ == old(out)@ + sgr_list_code(list@),
{
    let ghost start = out@;
    let mut i: usize = 0;
    while i < list.len()
        invariant
            i <= list@.len(),
            out@ == start + sgr_list_code(list@.take(i as int)),
        decreases list@.len() - i,
    {
        list[i].write_ansi_code(out);
        out.push(';');
        assert(list@.take(i as int + 1).drop_last() =~= list@.take(i as int));
        assert(out@ =~= start + sgr_list_code(list@.take(i as int + 1)));
        i = i + 1;
    }
    assert(list@.take(list@.len() as int) =~= list@);
}

/// Several SGR parameters written as one escape sequence, each followed by `;`.
pub struct SetSgr(pub Vec<Sgr>);

impl AnsiDisplay for SetSgr {
    open spec fn ansi(&self) -> Seq<char> {
        csi() + sgr_list_code(self.0@) + seq!['m']
    }

    fn write_ansi(&self, out: &mut Vec<char>) {
        let ghost start = out@;
        push_csi(out);
        write_sgr_list(self.0.as_slice(), out);
        out.push('m');
        assert(out@ =~= start + self.ansi());
    }
}

/// Colors and attributes for a piece of text.
#[derive(Debug, Clone, Copy, PartialEq, Eq, Structural)]
pub struct Style {
    fg: Option<Color>,
    bg: Option<Color>,
    attributes: Attributes,
}

/// The SGR parameters of the flags set in `bits`, lowest bit first.
pub open spec fn attribute_sgrs(bits: u16, i: nat) -> Seq<Sgr>
    decreases attribute_count() - i,
{
    if i >= attribute_count() {
        Seq::empty()
    } else if has_bit(bits, i) {
        seq![flag_sgr(i)] + attribute_sgrs(bits, i + 1)
    } else {
        attribute_sgrs(bits, i + 1)
    }
}

/// The SGR parameter of attribute flag `i`.
pub open spec fn flag_sgr(i: nat) -> Sgr {
    if i == 0 { Sgr::Reset } else if i == 1 { Sgr::Bold } else if i == 2 { Sgr::Faint }
    else if i == 3 { Sgr::Italic } else if i == 4 { Sgr::Underline } else if i == 5 { Sgr::Reverse }
    else if i == 6 { Sgr::Conceal } else if i == 7 { Sgr::CrossedOut } else if i == 8 { Sgr::NotBold }
    else if i == 9 { Sgr::NotItalic } else if i == 10 { Sgr::NotUnderline }
    else if i == 11 { Sgr::NotReverse } else if i == 12 { Sgr::NotConceal }
    else { Sgr::NotCrossedOut }
}

fn flag_sgr_of(i: u16) -> (r: Sgr)
    requires
        i < 14,
    ensures
        r == flag_sgr(i as nat),
{
    if i == 0 { Sgr::Reset } else if i == 1 { Sgr::Bold } else if i == 2 { Sgr::Faint }
    else if i == 3 { Sgr::Italic } else if i == 4 { Sgr::Underline } else if i == 5 { Sgr::Reverse }
    else if i == 6 { Sgr::Conceal } else if i == 7 { Sgr::CrossedOut } else if i == 8 { Sgr::NotBold }
    else if i == 9 { Sgr::NotItalic } else if i == 10 { Sgr::NotUnderline }
    else if i == 11 { Sgr::NotReverse } else if i == 12 { Sgr::NotConceal }
    else { Sgr::NotCrossedOut }
}

impl Style {
    pub closed spec fn spec_fg(self) -> Option<Color> {
        self.fg
    }

    pub closed spec fn spec_bg(self) -> Option<Color> {
        self.bg
    }

    pub closed spec fn spec_attributes(self) -> u16 {
        self.attributes.spec_bits()
    }

    /// The SGR parameters the style sets: foreground, background, then the attributes.
    pub open spec fn sgrs(self) -> Seq<Sgr> {
        (match self.spec_fg() {
            Some(c) => seq![Sgr::Fg(c)],
            None => Seq::empty(),
        }) + (match self.spec_bg() {
            Some(c) => seq![Sgr::Bg(c)],
            None => Seq::empty(),
        }) + attribute_sgrs(self.spec_attributes(), 0)
    }

    pub fn empty() -> (r: Self)
        ensures
            r.spec_fg() is None,
            r.spec_bg() is None,
            r.spec_attributes() == 0,
    {
        Style { fg: None, bg: None, attributes: Attributes::empty() }
    }

    pub fn fg(color: Color) -> (r: Self)
        ensures
            r.spec_fg() == Some(color),
            r.spec_bg() is None,
            r.spec_attributes() == 0,
    {
        Style { fg: Some(color), bg: None, attributes: Attributes::empty() }
    }

    pub fn bg(color: Color) -> (r: Self)
        ensures
            r.spec_fg() is None,
            r.spec_bg() == Some(color),
            r.spec_attributes() == 0,
    {
        Style { fg: None, bg: Some(color), attributes: Attributes::empty() }
    }

    pub fn attributes(attributes: Attributes) -> (r: Self)
        ensures
            r.spec_fg() is None,
            r.spec_bg() is None,
            r.spec_attributes() == attributes.spec_bits(),
    {
        Style { fg: None, bg: None, attributes }
    }

    pub fn bold() -> (r: Self)
        ensures
            r.spec_fg() is None,
            r.spec_bg() is None,
            r.spec_attributes() == 2,
    {
        Self::attributes(Attributes::bold())
    }

    pub fn italic() -> (r: Self)
        ensures
            r.spec_fg() is None,
            r.spec_bg() is None,
            r.spec_attributes() == 8,
    {
        Self::attributes(Attributes::italic())
    }

    pub fn reverse() -> (r: Self)
        ensures
            r.spec_fg() is None,
            r.spec_bg() is None,
            r.spec_attributes() == 32,
    {
        Self::attributes(Attributes::reverse())
    }

    pub fn with_fg(self, color: Color) -> (r: Self)
        ensures
            r.spec_fg() == Some(color),
            r.spec_bg() == self.spec_bg(),
            r.spec_attributes() == self.spec_attributes(),
    {
        let mut s = self;
        s.fg = Some(color);
        s
    }

    pub fn with_bg(self, color: Color) -> (r: Self)
        ensures
            r.spec_fg() == self.spec_fg(),
            r.spec_bg() == Some(color),
            r.spec_attributes() == self.spec_attributes(),
    {
        let mut s = self;
        s.bg = Some(color);
        s
    }

    /// Adds the flags of `attr` to those already set.
    pub fn with_attribute(self, attr: Attributes) -> (r: Self)
        ensures
            r.spec_fg() == self.spec_fg(),
            r.spec_bg() == self.spec_bg(),
            r.spec_attributes() == self.spec_attributes() | attr.spec_bits(),
    {
        let mut s = self;
        s.attributes = self.attributes.union(attr);
        s
    }

    pub fn with_bold(self) -> (r: Self)
        ensures
            r.spec_fg() == self.spec_fg(),
            r.spec_bg() == self.spec_bg(),
            r.spec_attributes() == self.spec_attributes() | 2,
    {
        self.with_attribute(Attributes::bold())
    }

    pub fn with_italic(self) -> (r: Self)
        ensures
            r.spec_fg() == self.spec_fg(),
            r.spec_bg() == self.spec_bg(),
            r.spec_attributes() == self.spec_attributes() | 8,
    {
        self.with_attribute(Attributes::italic())
    }

    pub fn with_reverse(self) -> (r: Self)
        ensures
            r.spec_fg() == self.spec_fg(),
            r.spec_bg() == self.spec_bg(),
            r.spec_attributes() == self.spec_attributes() | 32,
    {
        self.with_attribute(Attributes::reverse())
    }

    pub fn with_no_bold(self) -> (r: Self)
        ensures
            r.spec_fg() == self.spec_fg(),
            r.spec_bg() == self.spec_bg(),
            r.spec_attributes() == self.spec_attributes() | 256,
    {
        self.with_attribute(Attributes::not_bold())
    }

    pub fn with_no_italic(self) -> (r: Self)
        ensures
            r.spec_fg() == self.spec_fg(),
            r.spec_bg() == self.spec_bg(),
            r.spec_attributes() == self.spec_attributes() | 512,
    {
        self.with_attribute(Attributes::not_italic())
    }

    pub fn with_no_reverse(self) -> (r: Self)
        ensures
            r.spec_fg() == self.spec_fg(),
            r.spec_bg() == self.spec_bg(),
            r.spec_attributes() == self.spec_attributes() | 2048,
    {
        self.with_attribute(Attributes::not_reverse())
    }

    /// The text in this style.
    pub fn text<D: AnsiDisplay>(self, text: D) -> (r: Styled<D>)
        ensures
            r.text == text,
            r.style == self,
    {
        Styled::new(text, self)
    }

    /// The SGR parameters of the attribute flags, lowest bit first.
    pub fn attributes_as_sgr(&self) -> (r: Vec<Sgr>)
        ensures
            r@ == attribute_sgrs(self.spec_attributes(), 0),
    {
        let bits: u16 = self.attributes.bits();
        let mut out: Vec<Sgr> = Vec::new();
        let mut i: u16 = 14;
        while i > 0
            invariant
                i <= 14,
                bits == self.spec_attributes(),
                out@ == attribute_sgrs(bits, i as nat),
            decreases i,
        {
            i = i - 1;
            let b: u16 = (bits >> i) & 1u16;
            if b == 1u16 {
                out.insert(0, flag_sgr_of(i));
            }
            assert(out@ =~= attribute_sgrs(bits, i as nat));
        }
        out
    }

    fn color_sgrs(&self) -> (r: Vec<Sgr>)
        ensures
            r@ + attribute_sgrs(self.spec_attributes(), 0) == self.sgrs(),
    {
        let mut v: Vec<Sgr> = Vec::new();
        match self.fg {
            Some(c) => v.push(Sgr::Fg(c)),
            None => {},
        }
        match self.bg {
            Some(c) => v.push(Sgr::Bg(c)),
            None => {},
        }
        assert(v@ + attribute_sgrs(self.spec_attributes(), 0) =~= self.sgrs());
        v
    }
}

/// A style written as one escape sequence: `ESC [`, each parameter followed
/// by `;`, then `m`.
impl AnsiDisplay for Style {
    open spec fn ansi(&self) -> Seq<char> {
        csi() + sgr_list_code(self.sgrs()) + seq!['m']
    }

    fn write_ansi(&self, out: &mut Vec<char>) {
        let ghost start = out@;
        let mut list = self.color_sgrs();
        let mut attrs = self.attributes_as_sgr();
        list.append(&mut attrs);
        push_csi(out);
        write_sgr_list(list.as_slice(), out);
        out.push('m');
        assert(out@ =~= start + self.ansi());
    }
}

/// Text together with the style it is shown in.
pub struct Styled<D: AnsiDisplay> {
    pub text: D,
    pub style: Style,
}

impl<D: AnsiDisplay> Styled<D> {
    pub fn new(text: D, style: Style) -> (r: Self)
        ensures
            r.text == text,
            r.style == style,
    {
        Styled { text, style }
    }
}

/// The style's escape sequence, the text, then a reset of all attributes.
impl<D: AnsiDisplay> AnsiDisplay for Styled<D> {
    open spec fn ansi(&self) -> Seq<char> {
        self.style.ansi() + self.text.ansi() + Sgr::Reset.ansi()
    }

    fn write_ansi(&self, out: &mut Vec<char>) {
        let ghost start = out@;
        self.style.write_ansi(out);
        self.text.write_ansi(out);
        Sgr::Reset.write_ansi(out);
        assert(out@ =~= start + self.ansi());
    }
}

/// The slot of a color in the sixteen-color ANSI palette, in the standard
/// order black, red, green, yellow, blue, magenta, cyan, white, then the
/// same bright; the slot that `Color::Indexed` of the same number names.
pub open spec fn palette_slot(c: Color) -> Option<nat> {
    match c {
        Color::Black => Some(0),
        Color::Red => Some(1),
        Color::Green => Some(2),
        Color::Yellow => Some(3),
        Color::Blue => Some(4),
        Color::Magenta => Some(5),
        Color::Cyan => Some(6),
        Color::White => Some(7),
        Color::BrightBlack => Some(8),
        Color::BrightRed => Some(9),
        Color::BrightGreen => Some(10),
        Color::BrightYellow => Some(11),
        Color::BrightBlue => Some(12),
        Color::BrightMagenta => Some(13),
        Color::BrightCyan => Some(14),
        Color::BrightWhite => Some(15),
        _ => None,
    }
}

/// The ANSI codes of the palette colors: slot `k` of the eight basic colors
/// is foreground `30 + k` and background `40 + k`, a bright slot `8 + k` is
/// `90 + k` and `100 + k`, and the default color is `39` and `49`.
pub proof fn lemma_palette_codes(c: Color)
    ensures
        palette_slot(c) matches Some(k) ==> k < 8 ==> sgr_code(Sgr::Fg(c)) == decimal(30 + k) && sgr_code(Sgr::Bg(c))
            == decimal(40 + k),
        palette_slot(c) matches Some(k) ==> k >= 8 ==> sgr_code(Sgr::Fg(c)) == decimal(90 + (k - 8) as nat)
            && sgr_code(Sgr::Bg(c)) == decimal(100 + (k - 8) as nat),
        c is Default ==> sgr_code(Sgr::Fg(c)) == decimal(39) && sgr_code(Sgr::Bg(c)) == decimal(49),
{
}

/// Distinct colors that are not given by number have distinct codes, as
/// foreground and as background, and no foreground code is a background
/// code.
pub proof fn lemma_color_codes_distinct(a: Color, b: Color)
    requires
        !is_extended(a),
        !is_extended(b),
    ensures
        a != b ==> sgr_number(Sgr::Fg(a)) != sgr_number(Sgr::Fg(b)),
        a != b ==> sgr_number(Sgr::Bg(a)) != sgr_number(Sgr::Bg(b)),
        sgr_number(Sgr::Fg(a)) != sgr_number(Sgr::Bg(b)),
{
}

} // verus!
