//! Faces as tables of whole numbers, and the measuring and placing of text.
//!
//! A face gives each character a glyph and each glyph an advance, both in
//! font units. Text is broken greedily: a line ends at a space when the word
//! that follows would reach past the width, and the space that ends a line
//! is dropped.
//!
//! The pen moves in parts of a layout unit, as many to the unit as the face
//! has font units to the em, so that advances add up without rounding. Only
//! what leaves this module is rounded: the measured size up, the place of a
//! glyph down.

use vstd::prelude::*;
use vello::peniko::Brush;
use crate::drawing::DrawCommand;
use crate::drawing::SceneBuilder;
use crate::drawing::owned_brush;
use crate::geometry::floor_div;
use crate::geometry::lemma_quotient_within;
use crate::geometry::half_units;
use crate::geometry::add_units;
use crate::geometry::neg_units;
use crate::geometry::narrow;
use crate::geometry::saturate;
use crate::geometry::Rect;
use crate::geometry::ScaleFactor;
use crate::geometry::Size;
use crate::geometry::Translation;

verus! {

/// Where text sits along one axis of its box.
#[derive(Clone, Copy, Debug, PartialEq, Eq, Structural)]
pub enum TextAlign {
    Left,
    Right,
    Top,
    Bottom,
    Center,
}

/// The metrics of one face: the glyph of each character, the advance of each
/// glyph, and the line metrics, all in font units. What is kept of the font
/// units per em is how far they lie above one, so that no face has an empty
/// em.
#[derive(Debug)]
pub struct Font {
    units_above_one: u16,
    ascent: i16,
    descent: i16,
    leading: i16,
    glyphs: Vec<u16>,
    advances: Vec<u16>,
}

impl Font {
    #[verifier::type_invariant]
    spec fn units_fit(self) -> bool {
        self.units_above_one < u16::MAX
    }

    /// Font units per em.
    pub closed spec fn units(&self) -> int {
        self.units_above_one + 1
    }

    /// The em of every face has at least one font unit, and at most 65536.
    pub proof fn lemma_units_positive(&self)
        ensures
            0 < self.units() <= 0x1_0000,
    {
    }

    /// Height above the baseline, in font units.
    pub closed spec fn ascent_units(&self) -> int {
        self.ascent as int
    }

    /// Depth below the baseline, in font units; negative in most faces.
    pub closed spec fn descent_units(&self) -> int {
        self.descent as int
    }

    /// Gap between two lines, in font units.
    pub closed spec fn leading_units(&self) -> int {
        self.leading as int
    }

    /// Glyph of each code point, from code point zero up.
    pub closed spec fn glyph_table(&self) -> Seq<u16> {
        self.glyphs@
    }

    /// Advance of each glyph in font units, from glyph zero up.
    pub closed spec fn advance_table(&self) -> Seq<u16> {
        self.advances@
    }

    /// Glyph of `ch`: the entry of the table, or glyph zero where the table
    /// has none.
    pub open spec fn glyph_of(&self, ch: char) -> u16 {
        if (ch as u32) < self.glyph_table().len() {
            self.glyph_table()[ch as u32 as int]
        } else {
            0
        }
    }

    /// Advance of `glyph` in font units: the entry of the table, or zero
    /// where the table has none.
    pub open spec fn advance_units(&self, glyph: u16) -> int {
        if glyph < self.advance_table().len() {
            self.advance_table()[glyph as int] as int
        } else {
            0
        }
    }

    /// Advance of `ch` at `px` units per em, in parts of a layout unit.
    pub open spec fn advance_of(&self, ch: char, px: int) -> int {
        self.advance_units(self.glyph_of(ch)) * px
    }

    /// Height above the baseline at `px` units per em, in parts of a layout
    /// unit.
    pub open spec fn ascent_at(&self, px: int) -> int {
        self.ascent_units() * px
    }

    /// Distance from one baseline to the next at `px` units per em, in parts
    /// of a layout unit.
    pub open spec fn line_height_at(&self, px: int) -> int {
        (self.ascent_units() - self.descent_units() + self.leading_units()) * px
    }

    /// The whole layout units in `parts`, rounded down.
    pub open spec fn whole_down(&self, parts: int) -> int {
        parts / self.units()
    }

    /// The whole layout units that hold `parts`, rounded up.
    pub open spec fn whole_up(&self, parts: int) -> int {
        (parts + self.units() - 1) / self.units()
    }

    /// The face with the given metrics, or nothing where `units_per_em` is
    /// zero.
    pub fn new(
        units_per_em: u16,
        ascent: i16,
        descent: i16,
        leading: i16,
        glyphs: Vec<u16>,
        advances: Vec<u16>,
    ) -> (font: Option<Font>)
        ensures
            units_per_em == 0 <==> font is None,
            font matches Some(f) ==> f.units() == units_per_em && f.ascent_units() == ascent
                && f.descent_units() == descent && f.leading_units() == leading
                && f.glyph_table() == glyphs@ && f.advance_table() == advances@,
    {
        if units_per_em == 0 {
            None
        } else {
            Some(
                Font {
                    units_above_one: units_per_em - 1,
                    ascent,
                    descent,
                    leading,
                    glyphs,
                    advances,
                },
            )
        }
    }

    /// Glyph of `ch`.
    pub fn glyph(&self, ch: char) -> (glyph: u16)
        ensures
            glyph == self.glyph_of(ch),
    {
        let code: u32 = ch as u32;
        if (code as usize) < self.glyphs.len() {
            self.glyphs[code as usize]
        } else {
            0
        }
    }

    /// Font units per em: the parts that make one layout unit.
    pub fn units_per_em(&self) -> (units: u16)
        ensures
            units == self.units(),
            units > 0,
    {
        proof {
            use_type_invariant(self);
        }
        self.units_above_one + 1
    }

    /// Rounds parts of a layout unit down to whole units.
    pub fn round_down(&self, parts: i128) -> (whole: i128)
        ensures
            whole == self.whole_down(parts as int),
            parts >= 0 ==> 0 <= whole <= parts,
            parts < 0 ==> parts <= whole < 0,
    {
        let d: i128 = self.units_per_em() as i128;
        proof {
            lemma_quotient_within(parts as int, d as int);
        }
        floor_div(parts, d)
    }

    /// Rounds parts of a layout unit up to whole units.
    pub fn round_up(&self, parts: i128) -> (whole: i128)
        requires
            parts <= PARTS_CAP,
        ensures
            whole == self.whole_up(parts as int),
    {
        let d: i128 = self.units_per_em() as i128;
        floor_div(parts + d - 1, d)
    }

    /// Advance of `ch` at `px` units per em, in parts.
    pub fn advance(&self, ch: char, px: u32) -> (advance: i64)
        ensures
            advance == self.advance_of(ch, px as int),
            0 <= advance <= ADVANCE_CAP,
    {
        let glyph: u16 = self.glyph(ch);
        let units: i64 = if (glyph as usize) < self.advances.len() {
            self.advances[glyph as usize] as i64
        } else {
            0
        };
        self.at(units, px)
    }

    /// Height above the baseline at `px` units per em, in parts.
    pub fn ascent(&self, px: u32) -> (ascent: i64)
        ensures
            ascent == self.ascent_at(px as int),
            -ADVANCE_CAP <= ascent <= ADVANCE_CAP,
    {
        self.at(self.ascent as i64, px)
    }

    /// Distance from one baseline to the next at `px` units per em, in
    /// parts.
    pub fn line_height(&self, px: u32) -> (height: i64)
        ensures
            height == self.line_height_at(px as int),
            -LINE_CAP <= height <= LINE_CAP,
    {
        let units: i64 = self.ascent as i64 - self.descent as i64 + self.leading as i64;
        self.at(units, px)
    }

    fn at(&self, units: i64, px: u32) -> (parts: i64)
        requires
            -0x3_0000 <= units <= 0x3_0000,
        ensures
            parts == units * px,
            -0x1_0000 <= units <= 0x1_0000 ==> -ADVANCE_CAP <= parts <= ADVANCE_CAP,
            -LINE_CAP <= parts <= LINE_CAP,
            units >= 0 ==> parts >= 0,
    {
        assert(-0x3_0000 * 0xffff_ffff <= units * px <= 0x3_0000 * 0xffff_ffff && (units >= 0
            ==> units * px >= 0) && (-0x1_0000 <= units <= 0x1_0000 ==> -0x1_0000 * 0xffff_ffff
            <= units * px <= 0x1_0000 * 0xffff_ffff)) by (nonlinear_arith)
            requires
                -0x3_0000 <= units <= 0x3_0000,
                0 <= px <= 0xffff_ffff,
        ;
        units * (px as i64)
    }
}

/// Most parts that a glyph advances, and that a face rises, at any size.
pub const ADVANCE_CAP: i64 = 0x1_0000_0000_0000;

/// Most parts that one line is high, at any size.
pub const LINE_CAP: i64 = 0x3_0000_0000_0000;

/// Most parts that are rounded up to whole units.
pub const PARTS_CAP: i128 = 0x4000_0000_0000_0000_0000_0000_0000_0000;

/// The size in units per em that text is set at: `size` scaled by `scale`,
/// kept between zero and the largest size a face is asked for.
pub open spec fn pixel_size(size: i64, scale: ScaleFactor) -> int {
    clamped_size(scale.scaled(size as int))
}

/// `size` kept between zero and the largest size a face is asked for.
pub open spec fn clamped_size(size: int) -> int {
    if size < 0 {
        0
    } else if size > u32::MAX {
        u32::MAX as int
    } else {
        size
    }
}

/// Keeps a size between zero and the largest size a face is asked for.
pub fn clamp_size(size: i64) -> (px: u32)
    ensures
        px == clamped_size(size as int),
{
    if size < 0 {
        0
    } else if size > u32::MAX as i64 {
        u32::MAX
    } else {
        size as u32
    }
}

/// Computes the size in units per em that text is set at.
pub fn pixels(size: i64, scale: &ScaleFactor) -> (px: u32)
    ensures
        px == pixel_size(size, *scale),
{
    clamp_size(scale.apply(size))
}

/// The characters of `text`, one by one.
pub fn chars_of(text: &str) -> (chars: Vec<char>)
    ensures
        chars@ == text@,
{
    let n: usize = text.unicode_len();
    let mut chars: Vec<char> = Vec::new();
    let mut i: usize = 0;
    while i < n
        invariant
            n == text@.len(),
            i <= n,
            chars@ == text@.subrange(0, i as int),
        decreases n - i,
    {
        chars.push(text.get_char(i));
        assert(chars@ =~= text@.subrange(0, i + 1));
        i += 1;
    }
    assert(chars@ =~= text@);
    chars
}

/// Width of the word that starts at `from`, with the space that ends it.
pub open spec fn word_from(font: Font, px: int, text: Seq<char>, from: int) -> int
    decreases text.len() - from,
{
    if from < 0 || from >= text.len() || text[from] == ' ' {
        font.advance_of(' ', px)
    } else {
        font.advance_of(text[from], px) + word_from(font, px, text, from + 1)
    }
}

/// Where the pen stands while text is set, in parts of a layout unit: its
/// place on the line, the depth of the line, the farthest it has reached on
/// any line, and whether a line was broken for want of room.
pub ghost struct Pen {
    pub x: int,
    pub y: int,
    pub reach: int,
    pub wrapped: bool,
}

/// The pen before the first character.
pub open spec fn pen_start() -> Pen {
    Pen { x: 0, y: 0, reach: 0, wrapped: false }
}

/// The pen as it stands when character `i` is about to be placed: on a new
/// line where `i` is a space and the word after it would reach past `width`
/// parts.
pub open spec fn turned(font: Font, px: int, width: int, text: Seq<char>, i: int, pen: Pen) -> Pen {
    if text[i] == ' ' && pen.x + word_from(font, px, text, i + 1) > width {
        Pen { x: 0, y: pen.y + font.line_height_at(px), reach: pen.reach, wrapped: true }
    } else {
        pen
    }
}

/// Whether character `i` is a space at the start of a line below the first,
/// which is left out.
pub open spec fn swallowed(text: Seq<char>, i: int, pen: Pen) -> bool {
    text[i] == ' ' && pen.y > 0 && pen.x <= 0
}

/// The pen after character `i`.
pub open spec fn pen_step(font: Font, px: int, width: int, text: Seq<char>, i: int, pen: Pen) -> Pen {
    if text[i] == '\n' {
        Pen { x: 0, y: pen.y + font.line_height_at(px), reach: pen.reach, wrapped: pen.wrapped }
    } else {
        let t = turned(font, px, width, text, i, pen);
        if swallowed(text, i, t) {
            t
        } else {
            let x = t.x + font.advance_of(text[i], px);
            Pen { x, y: t.y, reach: if x > t.reach { x } else { t.reach }, wrapped: t.wrapped }
        }
    }
}

/// The pen after the first `n` characters.
pub open spec fn pen_after(font: Font, px: int, width: int, text: Seq<char>, n: int) -> Pen
    decreases n,
{
    if n <= 0 {
        pen_start()
    } else {
        pen_step(font, px, width, text, n - 1, pen_after(font, px, width, text, n - 1))
    }
}

/// The width of `bounds` in parts of a layout unit.
pub open spec fn width_in_parts(font: Font, bounds: Rect) -> int {
    bounds.width() * font.units()
}

/// The rectangle that `text` takes up when it is set at `px` units per em
/// and broken to the width of `bounds`: it starts at the origin of `bounds`,
/// is as wide as the longest line, or as `bounds` where a line was broken or
/// reaches past it, and as high as its lines, both rounded up to whole
/// units.
pub open spec fn measured(font: Font, px: int, bounds: Rect, text: Seq<char>) -> Rect {
    let width = width_in_parts(font, bounds);
    let pen = pen_after(font, px, width, text, text.len() as int);
    let w = if pen.reach > width || pen.wrapped {
        bounds.width() as int
    } else {
        font.whole_up(pen.reach)
    };
    let h = font.whole_up(pen.y + font.line_height_at(px));
    Rect::spanning(
        bounds.x0,
        bounds.y0,
        Size { width: saturate(w) as i64, height: saturate(h) as i64 },
    )
}

/// The command that places character `i`, if it is placed: its glyph, with
/// its origin on the baseline of its line, where the pen stands.
pub open spec fn glyph_at(
    font: Font,
    px: int,
    width: int,
    text: Seq<char>,
    i: int,
    pen: Pen,
    x: int,
    y: int,
    ink: Option<Brush>,
) -> Seq<DrawCommand> {
    let t = turned(font, px, width, text, i, pen);
    if text[i] == '\n' || swallowed(text, i, t) {
        Seq::empty()
    } else {
        seq![
            DrawCommand::Glyph {
                glyph: font.glyph_of(text[i]),
                x: saturate(x + font.whole_down(t.x)) as i64,
                y: saturate(y + font.whole_down(font.ascent_at(px) + t.y)) as i64,
                size: px as u32,
                ink,
            },
        ]
    }
}

/// The commands that place the first `n` characters of `text`, broken to
/// `width` parts, with the top of the first line at `(x, y)`.
pub open spec fn glyphs_upto(
    font: Font,
    px: int,
    width: int,
    text: Seq<char>,
    n: int,
    x: int,
    y: int,
    ink: Option<Brush>,
) -> Seq<DrawCommand>
    decreases n,
{
    if n <= 0 {
        Seq::empty()
    } else {
        glyphs_upto(font, px, width, text, n - 1, x, y, ink) + glyph_at(
            font,
            px,
            width,
            text,
            n - 1,
            pen_after(font, px, width, text, n - 1),
            x,
            y,
            ink,
        )
    }
}

/// The commands that place `text` inside `bounds`, moved by `transform`.
pub open spec fn placed(
    font: Font,
    px: int,
    ink: Option<Brush>,
    transform: Translation,
    text: Seq<char>,
    bounds: Rect,
) -> Seq<DrawCommand> {
    glyphs_upto(
        font,
        px,
        width_in_parts(font, bounds),
        text,
        text.len() as int,
        bounds.x0 + transform.dx,
        bounds.y0 + transform.dy,
        ink,
    )
}

/// The pen of a run after character `i`: a line feed starts a new line,
/// anything else moves the pen on by its advance.
pub open spec fn run_step(font: Font, px: int, text: Seq<char>, i: int, pen: (int, int)) -> (
    int,
    int,
) {
    if text[i] == '\n' {
        (0, pen.1 + font.line_height_at(px))
    } else {
        (pen.0 + font.advance_of(text[i], px), pen.1)
    }
}

/// The pen of a run after the first `n` characters.
pub open spec fn run_pen(font: Font, px: int, text: Seq<char>, n: int) -> (int, int)
    decreases n,
{
    if n <= 0 {
        (0, 0)
    } else {
        run_step(font, px, text, n - 1, run_pen(font, px, text, n - 1))
    }
}

/// The commands that place the first `n` characters of a run that starts at
/// `transform`: one glyph for each character but the line feeds.
pub open spec fn run_upto(
    font: Font,
    px: int,
    ink: Option<Brush>,
    transform: Translation,
    text: Seq<char>,
    n: int,
) -> Seq<DrawCommand>
    decreases n,
{
    if n <= 0 {
        Seq::empty()
    } else {
        let before = run_upto(font, px, ink, transform, text, n - 1);
        let pen = run_pen(font, px, text, n - 1);
        if text[n - 1] == '\n' {
            before
        } else {
            before.push(
                DrawCommand::Glyph {
                    glyph: font.glyph_of(text[n - 1]),
                    x: saturate(transform.dx + font.whole_down(pen.0)) as i64,
                    y: saturate(transform.dy + font.whole_down(pen.1)) as i64,
                    size: px as u32,
                    ink,
                },
            )
        }
    }
}

/// Measures and places text, in a face of the caller's or in its default face.
#[derive(Debug)]
pub struct FontManager {
    default_font: Font,
}

impl FontManager {
    /// The face used where a caller names none.
    pub closed spec fn default_face(&self) -> Font {
        self.default_font
    }

    /// The face that a call works with.
    pub open spec fn chosen(&self, font: Option<&Font>) -> Font {
        match font {
            Some(f) => *f,
            None => self.default_face(),
        }
    }

    /// A font manager with `default_font` as its default face.
    pub fn new(default_font: Font) -> (manager: FontManager)
        ensures
            manager.default_face() == default_font,
    {
        FontManager { default_font }
    }

    fn pick<'a>(&'a self, font: Option<&'a Font>) -> (face: &'a Font)
        ensures
            *face == self.chosen(font),
    {
        match font {
            Some(f) => f,
            None => &self.default_font,
        }
    }
}

/// A length in whole units, in parts.
fn parts_of(face: &Font, length: i64) -> (parts: i128)
    ensures
        parts == length * face.units(),
{
    let d: i128 = face.units_per_em() as i128;
    assert(-0x8000_0000_0000_0000 * 0x1_0000 <= length * d <= 0x8000_0000_0000_0000 * 0x1_0000)
        by (nonlinear_arith)
        requires
            -0x8000_0000_0000_0000 <= length <= 0x7fff_ffff_ffff_ffff,
            0 < d < 0x1_0000,
    ;
    (length as i128) * d
}

/// The pen as the code holds it, in numbers wide enough for any text.
struct Cursor {
    x: i128,
    y: i128,
    reach: i128,
    wrapped: bool,
}

impl Cursor {
    spec fn pen(self) -> Pen {
        Pen { x: self.x as int, y: self.y as int, reach: self.reach as int, wrapped: self.wrapped }
    }

    spec fn within(self, i: int) -> bool {
        &&& 0 <= self.x <= i * ADVANCE_CAP
        &&& 0 <= self.reach <= i * ADVANCE_CAP
        &&& -i * LINE_CAP <= self.y <= i * LINE_CAP
    }
}

/// Whether `ahead` holds, for each place of `chars`, the width of the word
/// that starts there.
spec fn holds_word_widths(ahead: Seq<i128>, face: Font, px: int, chars: Seq<char>) -> bool {
    &&& ahead.len() == chars.len()
    &&& forall|j: int|
        0 <= j < chars.len() ==> #[trigger] ahead[j] == word_from(face, px, chars, j) && 0
            <= ahead[j] <= (chars.len() - j + 1) * ADVANCE_CAP
}

/// Width of the word that starts at each place of `chars`.
fn word_widths(face: &Font, px: u32, chars: &Vec<char>) -> (ahead: Vec<i128>)
    ensures
        holds_word_widths(ahead@, *face, px as int, chars@),
{
    let n: usize = chars.len();
    let space: i64 = face.advance(' ', px);
    let mut ahead: Vec<i128> = Vec::new();
    let mut k: usize = 0;
    while k < n
        invariant
            k <= n,
            ahead@.len() == k,
        decreases n - k,
    {
        ahead.push(0);
        k += 1;
    }
    let mut j: usize = n;
    while j > 0
        invariant
            j <= n,
            n == chars@.len(),
            ahead@.len() == n,
            space == face.advance_of(' ', px as int),
            0 <= space <= ADVANCE_CAP,
            forall|m: int|
                j <= m < n ==> {
                    &&& #[trigger] ahead@[m] == word_from(*face, px as int, chars@, m)
                    &&& 0 <= ahead@[m] <= (n - m + 1) * ADVANCE_CAP
                },
        decreases j,
    {
        j -= 1;
        let ghost old_ahead = ahead@;
        let ch: char = chars[j];
        let width: i128 = if ch == ' ' {
            space as i128
        } else {
            let rest: i128 = if j + 1 < n {
                ahead[j + 1]
            } else {
                space as i128
            };
            face.advance(ch, px) as i128 + rest
        };
        proof {
            let after = word_from(*face, px as int, chars@, j + 1);
            if j + 1 < n {
                assert(ahead@[j + 1] == after);
            } else {
                assert(after == space);
            }
            assert(word_from(*face, px as int, chars@, j as int) == if ch == ' ' {
                space as int
            } else {
                face.advance_of(ch, px as int) + after
            });
        }
        ahead.set(j, width);
        assert forall|m: int| j <= m < n implies {
            &&& #[trigger] ahead@[m] == word_from(*face, px as int, chars@, m)
            &&& 0 <= ahead@[m] <= (n - m + 1) * ADVANCE_CAP
        } by {
            if m > j {
                assert(ahead@[m] == old_ahead[m]);
            }
        }
    }
    ahead
}

/// Moves the pen over character `i`, and says where the character is placed
/// if it is placed.
fn step(
    face: &Font,
    px: u32,
    width: i128,
    chars: &Vec<char>,
    ahead: &Vec<i128>,
    i: usize,
    cursor: Cursor,
) -> (next: (Cursor, Option<(i128, i128)>))
    requires
        i < chars@.len(),
        holds_word_widths(ahead@, *face, px as int, chars@),
        cursor.within(i as int),
    ensures
        next.0.pen() == pen_step(*face, px as int, width as int, chars@, i as int, cursor.pen()),
        next.0.within(i + 1),
        next.1 is None <==> chars@[i as int] == '\n' || swallowed(
            chars@,
            i as int,
            turned(*face, px as int, width as int, chars@, i as int, cursor.pen()),
        ),
        next.1 matches Some(at) ==> at.0 == turned(
            *face,
            px as int,
            width as int,
            chars@,
            i as int,
            cursor.pen(),
        ).x && at.1 == turned(*face, px as int, width as int, chars@, i as int, cursor.pen()).y
            && 0 <= at.0 <= i * ADVANCE_CAP && -(i + 1) * LINE_CAP <= at.1 <= (i + 1) * LINE_CAP,
{
    let n: usize = chars.len();
    let ch: char = chars[i];
    let line: i64 = face.line_height(px);
    if ch == '\n' {
        let moved = Cursor {
            x: 0,
            y: cursor.y + line as i128,
            reach: cursor.reach,
            wrapped: cursor.wrapped,
        };
        return (moved, None);
    }
    let next_word: i128 = if i + 1 < n {
        ahead[i + 1]
    } else {
        face.advance(' ', px) as i128
    };
    let breaks: bool = ch == ' ' && cursor.x + next_word > width;
    let t = if breaks {
        Cursor { x: 0, y: cursor.y + line as i128, reach: cursor.reach, wrapped: true }
    } else {
        cursor
    };
    if ch == ' ' && t.y > 0 && t.x <= 0 {
        return (t, None);
    }
    let x: i128 = t.x + face.advance(ch, px) as i128;
    let reach: i128 = if x > t.reach {
        x
    } else {
        t.reach
    };
    (Cursor { x, y: t.y, reach, wrapped: t.wrapped }, Some((t.x, t.y)))
}

impl FontManager {
    /// Measures `text` set at `size` scaled by `scale` and broken to the
    /// width of `bounds`.
    pub fn layout(
        &self,
        font: Option<&Font>,
        size: i64,
        scale: ScaleFactor,
        bounds: Rect,
        text: &str,
    ) -> (rect: Rect)
        ensures
            rect == measured(self.chosen(font), pixel_size(size, scale), bounds, text@),
    {
        let face = self.pick(font);
        let px: u32 = pixels(size, &scale);
        let chars = chars_of(text);
        let n: usize = chars.len();
        let width: i128 = parts_of(face, bounds.width());
        let ahead = word_widths(face, px, &chars);
        let mut cursor = Cursor { x: 0, y: 0, reach: 0, wrapped: false };
        let mut i: usize = 0;
        while i < n
            invariant
                i <= n,
                n == chars@.len(),
                holds_word_widths(ahead@, *face, px as int, chars@),
                cursor.within(i as int),
                cursor.pen() == pen_after(*face, px as int, width as int, chars@, i as int),
            decreases n - i,
        {
            let next = step(face, px, width, &chars, &ahead, i, cursor);
            cursor = next.0;
            i += 1;
        }
        let line: i64 = face.line_height(px);
        let w: i64 = if cursor.reach > width || cursor.wrapped {
            bounds.width()
        } else {
            narrow(face.round_up(cursor.reach))
        };
        Rect::from_origin_size(
            bounds.x0,
            bounds.y0,
            Size { width: w, height: narrow(face.round_up(cursor.y + line as i128)) },
        )
    }

    /// Places `text` inside `bounds`, set at `size` scaled by `scale` and
    /// broken to the width of `bounds`, with every glyph moved by
    /// `transform` and drawn in `brush`.
    pub fn add(
        &self,
        builder: &mut SceneBuilder,
        font: Option<&Font>,
        size: i64,
        scale: ScaleFactor,
        brush: Option<&Brush>,
        transform: Translation,
        text: &str,
        bounds: Rect,
    )
        ensures
            final(builder)@ == old(builder)@ + placed(
                self.chosen(font),
                pixel_size(size, scale),
                owned_brush(brush),
                transform,
                text@,
                bounds,
            ),
    {
        let face = self.pick(font);
        let px: u32 = pixels(size, &scale);
        let chars = chars_of(text);
        let n: usize = chars.len();
        let width: i128 = parts_of(face, bounds.width());
        let ahead = word_widths(face, px, &chars);
        let rise: i64 = face.ascent(px);
        let ox: i128 = bounds.x0 as i128 + transform.dx as i128;
        let oy: i128 = bounds.y0 as i128 + transform.dy as i128;
        let mut cursor = Cursor { x: 0, y: 0, reach: 0, wrapped: false };
        let mut i: usize = 0;
        assert(builder@ =~= old(builder)@ + Seq::<DrawCommand>::empty());
        while i < n
            invariant
                i <= n,
                n == chars@.len(),
                holds_word_widths(ahead@, *face, px as int, chars@),
                cursor.within(i as int),
                cursor.pen() == pen_after(*face, px as int, width as int, chars@, i as int),
                rise == face.ascent_at(px as int),
                -ADVANCE_CAP <= rise <= ADVANCE_CAP,
                -0x4_0000_0000_0000_0000 <= ox <= 0x4_0000_0000_0000_0000,
                -0x4_0000_0000_0000_0000 <= oy <= 0x4_0000_0000_0000_0000,
                builder@ == old(builder)@ + glyphs_upto(
                    *face,
                    px as int,
                    width as int,
                    chars@,
                    i as int,
                    ox as int,
                    oy as int,
                    owned_brush(brush),
                ),
            decreases n - i,
        {
            let ghost before = builder@;
            let ghost sofar = glyphs_upto(
                *face,
                px as int,
                width as int,
                chars@,
                i as int,
                ox as int,
                oy as int,
                owned_brush(brush),
            );
            let next = step(face, px, width, &chars, &ahead, i, cursor);
            match next.1 {
                Some(at) => {
                    builder.glyph(
                        face.glyph(chars[i]),
                        narrow(ox + face.round_down(at.0)),
                        narrow(oy + face.round_down(rise as i128 + at.1)),
                        px,
                        brush,
                    );
                    assert(builder@ =~= old(builder)@ + (sofar + glyph_at(
                        *face,
                        px as int,
                        width as int,
                        chars@,
                        i as int,
                        cursor.pen(),
                        ox as int,
                        oy as int,
                        owned_brush(brush),
                    )));
                },
                None => {
                    assert(builder@ =~= old(builder)@ + (sofar + Seq::<DrawCommand>::empty()));
                },
            }
            cursor = next.0;
            i += 1;
        }
    }

    /// Places `text` as one run that starts at `transform`, set at `size`
    /// units per em and drawn in `brush`. A line feed starts a new line;
    /// nothing else breaks the run.
    pub fn add_var_run(
        &self,
        builder: &mut SceneBuilder,
        font: Option<&Font>,
        size: i64,
        brush: &Brush,
        transform: Translation,
        text: &str,
    )
        ensures
            final(builder)@ == old(builder)@ + run_upto(
                self.chosen(font),
                clamped_size(size as int),
                Some(*brush),
                transform,
                text@,
                text@.len() as int,
            ),
    {
        let face = self.pick(font);
        let px: u32 = clamp_size(size);
        let chars = chars_of(text);
        let n: usize = chars.len();
        let line: i64 = face.line_height(px);
        let mut x: i128 = 0;
        let mut y: i128 = 0;
        let mut i: usize = 0;
        assert(builder@ =~= old(builder)@ + Seq::<DrawCommand>::empty());
        while i < n
            invariant
                i <= n,
                n == chars@.len(),
                line == face.line_height_at(px as int),
                -LINE_CAP <= line <= LINE_CAP,
                0 <= x <= i * ADVANCE_CAP,
                -i * LINE_CAP <= y <= i * LINE_CAP,
                (x as int, y as int) == run_pen(*face, px as int, chars@, i as int),
                builder@ == old(builder)@ + run_upto(
                    *face,
                    px as int,
                    Some(*brush),
                    transform,
                    chars@,
                    i as int,
                ),
            decreases n - i,
        {
            let ghost sofar = run_upto(*face, px as int, Some(*brush), transform, chars@, i as int);
            let ch: char = chars[i];
            if ch == '\n' {
                y = y + line as i128;
                x = 0;
            } else {
                builder.glyph(
                    face.glyph(ch),
                    narrow(transform.dx as i128 + face.round_down(x)),
                    narrow(transform.dy as i128 + face.round_down(y)),
                    px,
                    Some(brush),
                );
                assert(builder@ =~= old(builder)@ + sofar.push(builder@.last()));
                x = x + face.advance(ch, px) as i128;
            }
            i += 1;
        }
    }

    /// Places `text` as one run; see `add_var_run`.
    pub fn add_run(
        &self,
        builder: &mut SceneBuilder,
        font: Option<&Font>,
        size: i64,
        brush: &Brush,
        transform: Translation,
        text: &str,
    )
        ensures
            final(builder)@ == old(builder)@ + run_upto(
                self.chosen(font),
                clamped_size(size as int),
                Some(*brush),
                transform,
                text@,
                text@.len() as int,
            ),
    {
        self.add_var_run(builder, font, size, brush, transform, text);
    }
}

/// The shift that aligns text of the given rise and depth in a box as wide
/// as `size`: half the sum of rise and depth downwards where it is centred
/// vertically, the width to the left where it is set right, and half the
/// width to the left where it is centred horizontally.
pub open spec fn aligned(
    ascent: i64,
    descent: i64,
    size: Rect,
    vertical_align: TextAlign,
    horizontal_align: TextAlign,
) -> (i64, i64) {
    let y = if vertical_align == TextAlign::Center {
        (saturate(ascent + descent) / 2) as i64
    } else {
        0i64
    };
    let x = if horizontal_align == TextAlign::Right {
        saturate(-size.width()) as i64
    } else if horizontal_align == TextAlign::Center {
        (saturate(-size.width()) / 2) as i64
    } else {
        0i64
    };
    (x, y)
}

/// Computes the shift that aligns text in its box.
pub fn xy_from_align(
    ascent: i64,
    descent: i64,
    size: Rect,
    vertical_align: TextAlign,
    horizontal_algin: TextAlign,
) -> (shift: (i64, i64))
    ensures
        shift == aligned(ascent, descent, size, vertical_align, horizontal_algin),
{
    let y: i64 = match vertical_align {
        TextAlign::Center => half_units(add_units(ascent, descent)),
        _ => 0,
    };
    let x: i64 = match horizontal_algin {
        TextAlign::Right => neg_units(size.width()),
        TextAlign::Center => half_units(neg_units(size.width())),
        _ => 0,
    };
    (x, y)
}

/// The shift that aligns text in its box, as a translation.
pub fn transform_from_align(
    ascent: i64,
    descent: i64,
    size: Rect,
    vertical_align: TextAlign,
    horizontal_algin: TextAlign,
) -> (transform: Translation)
    ensures
        transform.dx == aligned(ascent, descent, size, vertical_align, horizontal_algin).0,
        transform.dy == aligned(ascent, descent, size, vertical_align, horizontal_algin).1,
{
    let (x, y) = xy_from_align(ascent, descent, size, vertical_align, horizontal_algin);
    Translation { dx: x, dy: y }
}

} // verus!
