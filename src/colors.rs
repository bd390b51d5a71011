//! ANSI terminal colors and styles, and a builder that combines them.
//!
//! Every value renders to its escape sequence with `to_ansi`, and the named
//! ones can be read from text with `from_name`.

use vstd::prelude::*;

use crate::text::{
    chars_eq, chars_of, decimal, parse_byte, parse_byte_of, prefix_of, push_char, push_decimal,
    push_str, str_is, suffix_of,
};

verus! {

/// `ESC [`, the start of a control sequence.
pub open spec fn csi() -> Seq<char> {
    seq!['\u{1b}', '[']
}

/// The escape sequence that applies the codes `code`; nothing when there
/// are none.
pub open spec fn sgr(code: Seq<char>) -> Seq<char> {
    if code.len() == 0 {
        code
    } else {
        csi() + code + seq!['m']
    }
}

fn esc_sq(code: String) -> (r: String)
    ensures
        r@ == sgr(code@),
{
    if code.as_str().is_empty() {
        code
    } else {
        let mut s = String::new();
        push_char(&mut s, '\u{1b}');
        push_char(&mut s, '[');
        push_str(&mut s, code.as_str());
        push_char(&mut s, 'm');
        assert(s@ =~= csi() + code@ + seq!['m']);
        s
    }
}

/// ANSI, RGB and 8-bit colors. `to_ansi` gives the foreground sequence.
#[derive(Debug, PartialEq, Eq, Clone, Copy)]
pub enum Color {
    /// Does nothing.
    Nothing,
    Reset,
    Black,
    Red,
    Green,
    Yellow,
    Blue,
    Purple,
    Cyan,
    White,
    BrightBlack,
    BrightRed,
    BrightGreen,
    BrightYellow,
    BrightBlue,
    BrightPurple,
    BrightCyan,
    BrightWhite,
    /// 8-bit color.
    Byte(u8),
    /// RGB color.
    RGB(u8, u8, u8),
}

/// One of the sixteen named colors.
pub open spec fn is_named(c: Color) -> bool {
    !(c is Nothing || c is Reset || c is Byte || c is RGB)
}

/// The palette index of a named color: 0 to 7 for the plain ones, 8 to 15
/// for the bright ones.
pub open spec fn palette_index(c: Color) -> nat {
    match c {
        Color::Black => 0,
        Color::Red => 1,
        Color::Green => 2,
        Color::Yellow => 3,
        Color::Blue => 4,
        Color::Purple => 5,
        Color::Cyan => 6,
        Color::White => 7,
        Color::BrightBlack => 8,
        Color::BrightRed => 9,
        Color::BrightGreen => 10,
        Color::BrightYellow => 11,
        Color::BrightBlue => 12,
        Color::BrightPurple => 13,
        Color::BrightCyan => 14,
        Color::BrightWhite => 15,
        _ => 0,
    }
}

/// The color that the byte `b` stands for: a named color below 16, else an
/// 8-bit color.
pub open spec fn color_of_byte(b: u8) -> Color {
    if b == 0 {
        Color::Black
    } else if b == 1 {
        Color::Red
    } else if b == 2 {
        Color::Green
    } else if b == 3 {
        Color::Yellow
    } else if b == 4 {
        Color::Blue
    } else if b == 5 {
        Color::Purple
    } else if b == 6 {
        Color::Cyan
    } else if b == 7 {
        Color::White
    } else if b == 8 {
        Color::BrightBlack
    } else if b == 9 {
        Color::BrightRed
    } else if b == 10 {
        Color::BrightGreen
    } else if b == 11 {
        Color::BrightYellow
    } else if b == 12 {
        Color::BrightBlue
    } else if b == 13 {
        Color::BrightPurple
    } else if b == 14 {
        Color::BrightCyan
    } else if b == 15 {
        Color::BrightWhite
    } else {
        Color::Byte(b)
    }
}

/// The 6x6x6 color cube entry nearest to an RGB color.
pub open spec fn rgb_byte(r: u8, g: u8, b: u8) -> nat {
    16 + (r as nat * 6 / 256) * 36 + (g as nat * 6 / 256) * 6 + (b as nat * 6 / 256)
}

fn rgb_to_byte(r: u8, g: u8, b: u8) -> (x: u8)
    ensures
        x as nat == rgb_byte(r, g, b),
{
    let r6 = r as u32 * 6 / 256;
    let g6 = g as u32 * 6 / 256;
    let b6 = b as u32 * 6 / 256;
    assert(r6 <= 5) by (nonlinear_arith)
        requires
            r6 == r as u32 * 6 / 256,
            r <= 255,
    ;
    assert(g6 <= 5) by (nonlinear_arith)
        requires
            g6 == g as u32 * 6 / 256,
            g <= 255,
    ;
    assert(b6 <= 5) by (nonlinear_arith)
        requires
            b6 == b as u32 * 6 / 256,
            b <= 255,
    ;
    (16 + r6 * 36 + g6 * 6 + b6) as u8
}

impl From<u8> for Color {
    /// A named color below 16, else an 8-bit color.
    fn from(value: u8) -> (r: Color) {
        if value == 0 {
            Color::Black
        } else if value == 1 {
            Color::Red
        } else if value == 2 {
            Color::Green
        } else if value == 3 {
            Color::Yellow
        } else if value == 4 {
            Color::Blue
        } else if value == 5 {
            Color::Purple
        } else if value == 6 {
            Color::Cyan
        } else if value == 7 {
            Color::White
        } else if value == 8 {
            Color::BrightBlack
        } else if value == 9 {
            Color::BrightRed
        } else if value == 10 {
            Color::BrightGreen
        } else if value == 11 {
            Color::BrightYellow
        } else if value == 12 {
            Color::BrightBlue
        } else if value == 13 {
            Color::BrightPurple
        } else if value == 14 {
            Color::BrightCyan
        } else if value == 15 {
            Color::BrightWhite
        } else {
            Color::Byte(value)
        }
    }
}

impl vstd::std_specs::convert::FromSpecImpl<u8> for Color {
    open spec fn obeys_from_spec() -> bool {
        true
    }

    open spec fn from_spec(v: u8) -> Color {
        color_of_byte(v)
    }
}

/// `r;g;b` in decimal.
pub open spec fn rgb_digits(r: u8, g: u8, b: u8) -> Seq<char> {
    decimal(r as nat) + seq![';'] + decimal(g as nat) + seq![';'] + decimal(b as nat)
}

/// The codes of a color: `kind` is `3` for the foreground, `4` for the
/// background and `5` for underlines.
pub open spec fn color_code(c: Color, kind: char) -> Seq<char> {
    match c {
        Color::Nothing => Seq::empty(),
        Color::Reset => seq![kind, '9'],
        Color::Byte(x) => seq![kind, '8', ';', '5', ';'] + decimal(x as nat),
        Color::RGB(r, g, b) => seq![kind, '8', ';', '2', ';'] + rgb_digits(r, g, b),
        _ => if kind == '5' {
            seq![kind, '8', ';', '5', ';'] + decimal(palette_index(c))
        } else if palette_index(c) < 8 {
            seq![kind] + decimal(palette_index(c))
        } else if kind == '3' {
            seq!['9'] + decimal((palette_index(c) - 8) as nat)
        } else {
            seq!['1', '0'] + decimal((palette_index(c) - 8) as nat)
        },
    }
}

impl Color {
    /// The palette index of a named color.
    fn index(&self) -> (r: u8)
        requires
            is_named(*self),
        ensures
            r as nat == palette_index(*self),
            r < 16,
    {
        match self {
            Color::Black => 0,
            Color::Red => 1,
            Color::Green => 2,
            Color::Yellow => 3,
            Color::Blue => 4,
            Color::Purple => 5,
            Color::Cyan => 6,
            Color::White => 7,
            Color::BrightBlack => 8,
            Color::BrightRed => 9,
            Color::BrightGreen => 10,
            Color::BrightYellow => 11,
            Color::BrightBlue => 12,
            Color::BrightPurple => 13,
            Color::BrightCyan => 14,
            _ => 15,
        }
    }

    fn code(&self, kind: char) -> (r: String)
        requires
            kind == '3' || kind == '4' || kind == '5',
        ensures
            r@ == color_code(*self, kind),
    {
        let mut s = String::new();
        match self {
            Color::Nothing => {},
            Color::Reset => {
                push_char(&mut s, kind);
                push_char(&mut s, '9');
                assert(s@ =~= seq![kind, '9']);
            },
            Color::Byte(x) => {
                push_color_prefix(&mut s, kind, '5');
                push_decimal(&mut s, *x as u32);
            },
            Color::RGB(r, g, b) => {
                push_color_prefix(&mut s, kind, '2');
                push_decimal(&mut s, *r as u32);
                push_char(&mut s, ';');
                push_decimal(&mut s, *g as u32);
                push_char(&mut s, ';');
                push_decimal(&mut s, *b as u32);
                assert(s@ =~= seq![kind, '8', ';', '2', ';'] + rgb_digits(*r, *g, *b));
            },
            _ => {
                let n = self.index();
                if kind == '5' {
                    push_color_prefix(&mut s, kind, '5');
                    push_decimal(&mut s, n as u32);
                } else if n < 8 {
                    push_char(&mut s, kind);
                    push_decimal(&mut s, n as u32);
                    assert(s@ =~= seq![kind] + decimal(palette_index(*self)));
                } else if kind == '3' {
                    push_char(&mut s, '9');
                    push_decimal(&mut s, (n - 8) as u32);
                    assert(s@ =~= seq!['9'] + decimal((palette_index(*self) - 8) as nat));
                } else {
                    push_char(&mut s, '1');
                    push_char(&mut s, '0');
                    push_decimal(&mut s, (n - 8) as u32);
                    assert(s@ =~= seq!['1', '0'] + decimal((palette_index(*self) - 8) as nat));
                }
            },
        }
        s
    }

    /// The foreground codes of this color (`31`, `38;5;93`, ...).
    pub fn fg_code(&self) -> (r: String)
        ensures
            r@ == color_code(*self, '3'),
    {
        self.code('3')
    }

    /// The background codes of this color (`41`, `48;5;93`, ...).
    pub fn bg_code(&self) -> (r: String)
        ensures
            r@ == color_code(*self, '4'),
    {
        self.code('4')
    }

    /// The underline color codes of this color (`58;5;1`, ...).
    pub fn ul_code(&self) -> (r: String)
        ensures
            r@ == color_code(*self, '5'),
    {
        self.code('5')
    }

    /// The color byte that is closest to this color: the 8-bit color itself,
    /// the nearest entry of the color cube for an RGB color, and the palette
    /// index of a named color.
    pub fn byte(&self) -> (r: u8)
        requires
            !(*self is Nothing),
            !(*self is Reset),
        ensures
            r as nat == match *self {
                Color::Byte(x) => x as nat,
                Color::RGB(red, green, blue) => rgb_byte(red, green, blue),
                _ => palette_index(*self),
            },
    {
        match self {
            Color::Byte(x) => *x,
            Color::RGB(r, g, b) => rgb_to_byte(*r, *g, *b),
            _ => self.index(),
        }
    }

    /// The foreground escape sequence of this color.
    pub fn fg(&self) -> (r: String)
        ensures
            r@ == sgr(color_code(*self, '3')),
    {
        esc_sq(self.fg_code())
    }

    /// The background escape sequence of this color.
    pub fn bg(&self) -> (r: String)
        ensures
            r@ == sgr(color_code(*self, '4')),
    {
        esc_sq(self.bg_code())
    }

    /// The underline escape sequence of this color.
    pub fn ul(&self) -> (r: String)
        ensures
            r@ == sgr(color_code(*self, '5')),
    {
        esc_sq(self.ul_code())
    }

    /// The foreground escape sequence of this color.
    pub fn to_ansi(&self) -> (r: String)
        ensures
            r@ == sgr(color_code(*self, '3')),
    {
        self.fg()
    }
}

fn push_color_prefix(s: &mut String, kind: char, mode: char)
    ensures
        final(s)@ == old(s)@ + seq![kind, '8', ';', mode, ';'],
{
    push_char(s, kind);
    push_char(s, '8');
    push_char(s, ';');
    push_char(s, mode);
    push_char(s, ';');
    assert(s@ =~= old(s)@ + seq![kind, '8', ';', mode, ';']);
}

/// What a name that could not be read was meant to be.
#[derive(Debug, PartialEq, Eq, Clone, Copy)]
pub enum NameKind {
    Color,
    Style,
    UnderlineStyle,
}

/// A name that is not a known color or style.
#[derive(Debug, PartialEq, Eq, Clone)]
pub struct UnknownName {
    pub kind: NameKind,
    /// The text as given.
    pub name: String,
}

/// The words that `message` puts before the name.
pub open spec fn unknown_prefix(kind: NameKind) -> Seq<char> {
    match kind {
        NameKind::Color => "Unknown color '"@,
        NameKind::Style => "Unknown style '"@,
        NameKind::UnderlineStyle => "Unknown underline style '"@,
    }
}

impl UnknownName {
    /// A message for the user, such as `Unknown color 'pink'`.
    pub fn message(&self) -> (r: String)
        ensures
            r@ == unknown_prefix(self.kind) + self.name@ + "'"@,
    {
        let mut s = String::new();
        match self.kind {
            NameKind::Color => push_str(&mut s, "Unknown color '"),
            NameKind::Style => push_str(&mut s, "Unknown style '"),
            NameKind::UnderlineStyle => push_str(&mut s, "Unknown underline style '"),
        }
        push_str(&mut s, self.name.as_str());
        push_str(&mut s, "'");
        assert(s@ =~= unknown_prefix(self.kind) + self.name@ + "'"@);
        s
    }
}

/// The palette index of a plain color name.
pub open spec fn base_color_number(name: Seq<char>) -> Option<nat> {
    if name == "black"@ {
        Some(0)
    } else if name == "red"@ {
        Some(1)
    } else if name == "green"@ {
        Some(2)
    } else if name == "yellow"@ {
        Some(3)
    } else if name == "blue"@ {
        Some(4)
    } else if name == "purple"@ {
        Some(5)
    } else if name == "cyan"@ {
        Some(6)
    } else if name == "white"@ {
        Some(7)
    } else if name == "gray"@ {
        Some(8)
    } else {
        None
    }
}

/// A separator between `bright` and a color name.
pub open spec fn is_separator(c: char) -> bool {
    c == '-' || c == '_' || c == ' '
}

/// Whether `s` is `bright` followed by a separator and more.
pub open spec fn has_bright_prefix(s: Seq<char>) -> bool {
    s.len() >= 7 && s.take(6) == "bright"@ && is_separator(s[6])
}

/// The color that `s` names: `none`, a color name such as `red`, that name
/// after `bright` and a separator (`bright-red`, `bright_red`,
/// `bright red`), or a number read as a byte.
pub open spec fn color_named(s: Seq<char>) -> Option<Color> {
    let name = if has_bright_prefix(s) {
        s.skip(7)
    } else {
        s
    };
    let fix: nat = if has_bright_prefix(s) {
        8
    } else {
        0
    };
    if name == "none"@ {
        Some(Color::Nothing)
    } else {
        match base_color_number(name) {
            Some(n) => Some(color_of_byte((n + fix) as u8)),
            None => match parse_byte(s) {
                Some(b) => Some(color_of_byte(b)),
                None => None,
            },
        }
    }
}

fn base_color_number_of(name: &Vec<char>) -> (r: Option<u8>)
    ensures
        r matches Some(n) ==> base_color_number(name@) == Some(n as nat) && n <= 8,
        r is None ==> base_color_number(name@) is None,
{
    if str_is("black", name) {
        Some(0)
    } else if str_is("red", name) {
        Some(1)
    } else if str_is("green", name) {
        Some(2)
    } else if str_is("yellow", name) {
        Some(3)
    } else if str_is("blue", name) {
        Some(4)
    } else if str_is("purple", name) {
        Some(5)
    } else if str_is("cyan", name) {
        Some(6)
    } else if str_is("white", name) {
        Some(7)
    } else if str_is("gray", name) {
        Some(8)
    } else {
        None
    }
}

impl Color {
    /// Reads a color from its name or number; see [`color_named`].
    pub fn from_name(s: &str) -> (r: Result<Color, UnknownName>)
        ensures
            match color_named(s@) {
                Some(c) => r == Ok::<Color, UnknownName>(c),
                None => r matches Err(e) && e.kind == NameKind::Color && e.name@ == s@,
            },
    {
        let cs = chars_of(s);
        let bright_word = chars_of("bright");
        let mut bright = false;
        if cs.len() >= 7 && (cs[6] == '-' || cs[6] == '_' || cs[6] == ' ') {
            let head = prefix_of(&cs, 6);
            bright = chars_eq(&head, &bright_word);
        }
        assert(bright == has_bright_prefix(s@));
        let name: Vec<char> = if bright {
            suffix_of(&cs, 7)
        } else {
            cs.clone()
        };
        assert(name@ == if has_bright_prefix(s@) { s@.skip(7) } else { s@ });
        if str_is("none", &name) {
            return Ok(Color::Nothing);
        }
        match base_color_number_of(&name) {
            Some(n) => {
                let fix: u8 = if bright {
                    8
                } else {
                    0
                };
                Ok(Color::from(n + fix))
            },
            None => match parse_byte_of(&cs) {
                Some(b) => Ok(Color::from(b)),
                None => Err(UnknownName { kind: NameKind::Color, name: String::from_str(s) }),
            },
        }
    }
}

impl Default for Color {
    fn default() -> (r: Color)
        ensures
            r == Color::Nothing,
    {
        Color::Nothing
    }
}

/// What `str::to_lowercase` makes of the characters `s`.
pub uninterp spec fn lower_of(s: Seq<char>) -> Seq<char>;

/// Relies on `str::to_lowercase`: the result depends on the characters
/// alone.
#[verifier::external_body]
fn lowercase(s: &str) -> (r: String)
    ensures
        r@ == lower_of(s@),
{
    s.to_lowercase()
}

/// Terminal style codes.
#[derive(Debug, PartialEq, Eq, Clone, Copy)]
pub enum Style {
    /// Does nothing.
    Nothing,
    /// Resets all colors and styles.
    Reset,
    Bold,
    Faint,
    Italic,
    Underlined,
    Strikethrough,
    ResetBold,
    ResetItalic,
    ResetUnderline,
    ResetStrikethrough,
}

/// The SGR number of a style; `Nothing` has 255, which no terminal uses.
pub open spec fn style_number(st: Style) -> nat {
    match st {
        Style::Nothing => 255,
        Style::Reset => 0,
        Style::Bold => 1,
        Style::Faint => 2,
        Style::Italic => 3,
        Style::Underlined => 4,
        Style::Strikethrough => 9,
        Style::ResetBold => 22,
        Style::ResetItalic => 23,
        Style::ResetUnderline => 24,
        Style::ResetStrikethrough => 29,
    }
}

/// The style that a lower-case name stands for.
pub open spec fn style_named(name: Seq<char>) -> Option<Style> {
    if name == "default"@ || name == "none"@ || name == "reset"@ {
        Some(Style::Reset)
    } else if name == "bold"@ {
        Some(Style::Bold)
    } else if name == "faint"@ {
        Some(Style::Faint)
    } else if name == "italic"@ {
        Some(Style::Italic)
    } else if name == "underlined"@ || name == "underline"@ {
        Some(Style::Underlined)
    } else if name == "strikethrough"@ || name == "striked"@ || name == "crossed"@ {
        Some(Style::Strikethrough)
    } else {
        None
    }
}

impl Style {
    fn number(&self) -> (r: u32)
        ensures
            r as nat == style_number(*self),
    {
        match self {
            Style::Nothing => 255,
            Style::Reset => 0,
            Style::Bold => 1,
            Style::Faint => 2,
            Style::Italic => 3,
            Style::Underlined => 4,
            Style::Strikethrough => 9,
            Style::ResetBold => 22,
            Style::ResetItalic => 23,
            Style::ResetUnderline => 24,
            Style::ResetStrikethrough => 29,
        }
    }

    /// The code of this style: its number in decimal.
    pub fn code(&self) -> (r: String)
        ensures
            r@ == decimal(style_number(*self)),
    {
        let mut s = String::new();
        push_decimal(&mut s, self.number());
        assert(s@ =~= decimal(style_number(*self)));
        s
    }

    /// The escape sequence of this style; nothing for `Style::Nothing`.
    pub fn to_ansi(&self) -> (r: String)
        ensures
            r@ == if *self is Nothing {
                Seq::empty()
            } else {
                sgr(decimal(style_number(*self)))
            },
    {
        if let Style::Nothing = self {
            String::new()
        } else {
            esc_sq(self.code())
        }
    }

    /// Reads a style from a lower-case name; see [`style_named`].
    pub fn from_lowercase_name(name: &str) -> (r: Option<Style>)
        ensures
            r == style_named(name@),
    {
        let cs = chars_of(name);
        if str_is("default", &cs) || str_is("none", &cs) || str_is("reset", &cs) {
            Some(Style::Reset)
        } else if str_is("bold", &cs) {
            Some(Style::Bold)
        } else if str_is("faint", &cs) {
            Some(Style::Faint)
        } else if str_is("italic", &cs) {
            Some(Style::Italic)
        } else if str_is("underlined", &cs) || str_is("underline", &cs) {
            Some(Style::Underlined)
        } else if str_is("strikethrough", &cs) || str_is("striked", &cs) || str_is("crossed", &cs) {
            Some(Style::Strikethrough)
        } else {
            None
        }
    }

    /// Reads a style from its name, in any case.
    pub fn from_name(s: &str) -> (r: Result<Style, UnknownName>)
        ensures
            match style_named(lower_of(s@)) {
                Some(st) => r == Ok::<Style, UnknownName>(st),
                None => r matches Err(e) && e.kind == NameKind::Style && e.name@ == s@,
            },
    {
        let lower = lowercase(s);
        match Style::from_lowercase_name(lower.as_str()) {
            Some(st) => Ok(st),
            None => Err(UnknownName { kind: NameKind::Style, name: String::from_str(s) }),
        }
    }
}

impl Default for Style {
    fn default() -> (r: Style)
        ensures
            r == Style::Nothing,
    {
        Style::Nothing
    }
}

/// Underline style codes. Only some terminals support them.
#[derive(Debug, PartialEq, Eq, Clone, Copy)]
pub enum UnderlineStyle {
    Straight,
    Double,
    Curly,
    Dotted,
    Dashed,
}

/// The number of an underline style.
pub open spec fn underline_number(u: UnderlineStyle) -> nat {
    match u {
        UnderlineStyle::Straight => 1,
        UnderlineStyle::Double => 2,
        UnderlineStyle::Curly => 3,
        UnderlineStyle::Dotted => 4,
        UnderlineStyle::Dashed => 5,
    }
}

/// The code of an underline style, `4:` and its number.
pub open spec fn underline_code(u: UnderlineStyle) -> Seq<char> {
    seq!['4', ':'] + decimal(underline_number(u))
}

/// The underline style that a lower-case name stands for.
pub open spec fn underline_style_named(name: Seq<char>) -> Option<UnderlineStyle> {
    if name == "default"@ || name == "straight"@ {
        Some(UnderlineStyle::Straight)
    } else if name == "double"@ {
        Some(UnderlineStyle::Double)
    } else if name == "curly"@ {
        Some(UnderlineStyle::Curly)
    } else if name == "dotted"@ {
        Some(UnderlineStyle::Dotted)
    } else if name == "dashed"@ {
        Some(UnderlineStyle::Dashed)
    } else {
        None
    }
}

impl UnderlineStyle {
    /// The code of this underline style (`4:3` for curly).
    pub fn code(&self) -> (r: String)
        ensures
            r@ == underline_code(*self),
    {
        let n: u32 = match self {
            UnderlineStyle::Straight => 1,
            UnderlineStyle::Double => 2,
            UnderlineStyle::Curly => 3,
            UnderlineStyle::Dotted => 4,
            UnderlineStyle::Dashed => 5,
        };
        let mut s = String::new();
        push_char(&mut s, '4');
        push_char(&mut s, ':');
        push_decimal(&mut s, n);
        assert(s@ =~= underline_code(*self));
        s
    }

    /// The escape sequence of this underline style.
    pub fn to_ansi(&self) -> (r: String)
        ensures
            r@ == sgr(underline_code(*self)),
    {
        esc_sq(self.code())
    }

    /// Reads an underline style from a lower-case name; see
    /// [`underline_style_named`].
    pub fn from_lowercase_name(name: &str) -> (r: Option<UnderlineStyle>)
        ensures
            r == underline_style_named(name@),
    {
        let cs = chars_of(name);
        if str_is("default", &cs) || str_is("straight", &cs) {
            Some(UnderlineStyle::Straight)
        } else if str_is("double", &cs) {
            Some(UnderlineStyle::Double)
        } else if str_is("curly", &cs) {
            Some(UnderlineStyle::Curly)
        } else if str_is("dotted", &cs) {
            Some(UnderlineStyle::Dotted)
        } else if str_is("dashed", &cs) {
            Some(UnderlineStyle::Dashed)
        } else {
            None
        }
    }

    /// Reads an underline style from its name, in any case.
    pub fn from_name(s: &str) -> (r: Result<UnderlineStyle, UnknownName>)
        ensures
            match underline_style_named(lower_of(s@)) {
                Some(u) => r == Ok::<UnderlineStyle, UnknownName>(u),
                None => r matches Err(e) && e.kind == NameKind::UnderlineStyle && e.name@ == s@,
            },
    {
        let lower = lowercase(s);
        match UnderlineStyle::from_lowercase_name(lower.as_str()) {
            Some(u) => Ok(u),
            None => Err(UnknownName { kind: NameKind::UnderlineStyle, name: String::from_str(s) }),
        }
    }
}

impl Default for UnderlineStyle {
    fn default() -> (r: UnderlineStyle)
        ensures
            r == UnderlineStyle::Straight,
    {
        UnderlineStyle::Straight
    }
}

/// `codes` with `code` added: a `;` goes between them unless `codes` is
/// empty or already ends with one.
pub open spec fn joined(codes: Seq<char>, code: Seq<char>) -> Seq<char> {
    if codes.len() > 0 && codes.last() != ';' {
        codes + seq![';'] + code
    } else {
        codes + code
    }
}

fn concat_codes(code_string: &mut String, style: &String)
    ensures
        final(code_string)@ == joined(old(code_string)@, style@),
{
    let cs = chars_of(code_string.as_str());
    if cs.len() > 0 && cs[cs.len() - 1] != ';' {
        push_char(code_string, ';');
    }
    push_str(code_string, style.as_str());
}

/// A saved combination of colors and styles. Build one with
/// [`StyleBuilder`].
#[derive(Debug, Clone)]
pub struct TerminalStyle {
    printable_string: String,
}

impl View for TerminalStyle {
    type V = Seq<char>;

    /// The codes of the style, separated by `;`.
    closed spec fn view(&self) -> Seq<char> {
        self.printable_string@
    }
}

impl TerminalStyle {
    /// The codes of this style, separated by `;`.
    pub fn codes(&self) -> (r: String)
        ensures
            r@ == self@,
    {
        self.printable_string.clone()
    }

    /// The escape sequence of this style; nothing for an empty style.
    pub fn to_ansi(&self) -> (r: String)
        ensures
            r@ == sgr(self@),
    {
        esc_sq(self.printable_string.clone())
    }
}

impl Default for TerminalStyle {
    fn default() -> (r: TerminalStyle)
        ensures
            r@ == Seq::<char>::empty(),
    {
        TerminalStyle { printable_string: String::new() }
    }
}

/// Builder for [`TerminalStyle`]. Each step adds its codes after those of
/// the steps before.
pub struct StyleBuilder {
    style: TerminalStyle,
}

impl View for StyleBuilder {
    type V = Seq<char>;

    /// The codes gathered so far.
    closed spec fn view(&self) -> Seq<char> {
        self.style@
    }
}

impl StyleBuilder {
    /// A builder with no codes.
    pub fn new() -> (r: StyleBuilder)
        ensures
            r@ == Seq::<char>::empty(),
    {
        StyleBuilder { style: TerminalStyle::default() }
    }

    fn add_code(&mut self, code: String) -> (r: &mut Self)
        ensures
            r@ == joined(old(self)@, code@),
            final(self)@ == final(r)@,
    {
        concat_codes(&mut self.style.printable_string, &code);
        self
    }

    /// Adds a foreground color.
    pub fn foreground(&mut self, color: Color) -> (r: &mut Self)
        ensures
            r@ == joined(old(self)@, color_code(color, '3')),
            final(self)@ == final(r)@,
    {
        self.add_code(color.fg_code())
    }

    /// Adds a background color.
    pub fn background(&mut self, color: Color) -> (r: &mut Self)
        ensures
            r@ == joined(old(self)@, color_code(color, '4')),
            final(self)@ == final(r)@,
    {
        self.add_code(color.bg_code())
    }

    /// Adds a style. Can be used several times.
    pub fn add_style(&mut self, style: Style) -> (r: &mut Self)
        ensures
            r@ == joined(old(self)@, decimal(style_number(style))),
            final(self)@ == final(r)@,
    {
        self.add_code(style.code())
    }

    /// Adds an underline style, when the terminal supports underline
    /// styles (`supported`); see `common::underline_supported_by`.
    pub fn underline_style(&mut self, underline_style: UnderlineStyle, supported: bool) -> (r:
        &mut Self)
        ensures
            r@ == if supported {
                joined(old(self)@, underline_code(underline_style))
            } else {
                old(self)@
            },
            final(self)@ == final(r)@,
    {
        if supported {
            self.add_code(underline_style.code())
        } else {
            self
        }
    }

    /// Adds an underline color, when the terminal supports underline styles
    /// (`supported`); see `common::underline_supported_by`.
    pub fn underline_color(&mut self, underline_color: Color, supported: bool) -> (r: &mut Self)
        ensures
            r@ == if supported {
                joined(old(self)@, color_code(underline_color, '5'))
            } else {
                old(self)@
            },
            final(self)@ == final(r)@,
    {
        if supported {
            self.add_code(underline_color.ul_code())
        } else {
            self
        }
    }

    /// The style built so far.
    pub fn build(&mut self) -> (r: TerminalStyle)
        ensures
            r@ == old(self)@,
            final(self)@ == old(self)@,
    {
        TerminalStyle { printable_string: self.style.printable_string.clone() }
    }
}

impl core::str::FromStr for Color {
    type Err = UnknownName;

    /// See [`Color::from_name`].
    fn from_str(s: &str) -> Result<Color, UnknownName> {
        Color::from_name(s)
    }
}

impl core::str::FromStr for Style {
    type Err = UnknownName;

    /// See [`Style::from_name`].
    fn from_str(s: &str) -> Result<Style, UnknownName> {
        Style::from_name(s)
    }
}

impl core::str::FromStr for UnderlineStyle {
    type Err = UnknownName;

    /// See [`UnderlineStyle::from_name`].
    fn from_str(s: &str) -> Result<UnderlineStyle, UnknownName> {
        UnderlineStyle::from_name(s)
    }
}

} // verus!
