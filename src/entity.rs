use vstd::prelude::*;

use crate::geometry::Point;

verus! {

/// An RGBA colour, one byte per channel.
#[derive(Clone, Copy, Debug, PartialEq, Eq, Structural)]
pub struct Color {
    pub r: u8,
    pub g: u8,
    pub b: u8,
    pub a: u8,
}

impl Color {
    pub fn black() -> (c: Color)
        ensures
            c == (Color { r: 0, g: 0, b: 0, a: 255 }),
    {
        Color { r: 0, g: 0, b: 0, a: 255 }
    }

    pub fn white() -> (c: Color)
        ensures
            c == (Color { r: 255, g: 255, b: 255, a: 255 }),
    {
        Color { r: 255, g: 255, b: 255, a: 255 }
    }
}

/// The colour behind the drawing.
#[derive(Clone, Copy, Debug, PartialEq, Eq, Structural)]
pub struct BackgroundColor(pub Color);

impl Default for BackgroundColor {
    fn default() -> (r: Self)
        ensures
            r.0 == (Color { r: 255, g: 255, b: 255, a: 255 }),
    {
        BackgroundColor(Color::white())
    }
}

/// The colour new strokes are drawn in.
#[derive(Clone, Copy, Debug, PartialEq, Eq, Structural)]
pub struct ForegroundColor(pub Color);

impl Default for ForegroundColor {
    fn default() -> (r: Self)
        ensures
            r.0 == (Color { r: 0, g: 0, b: 0, a: 255 }),
    {
        ForegroundColor(Color::black())
    }
}

/// The colour new text labels are written in.
#[derive(Clone, Copy, Debug, PartialEq, Eq, Structural)]
pub struct TextColor(pub Color);

impl Default for TextColor {
    fn default() -> (r: Self)
        ensures
            r.0 == (Color { r: 0, g: 0, b: 0, a: 255 }),
    {
        TextColor(Color::black())
    }
}

/// The font size of a text label.
#[derive(Clone, Copy, Debug, PartialEq, Eq, Structural)]
pub struct TextSize(pub u32);

impl Default for TextSize {
    fn default() -> (r: Self)
        ensures
            r.0 == 50,
    {
        TextSize(50)
    }
}

impl TextSize {
    /// The size after one step of `amount` points up (`grow`) or down; a
    /// step moves by at least one point and stops at the bounds of `u32`.
    pub fn changed_by(self, grow: bool, amount: u32) -> (r: TextSize)
        ensures
            ({
                let step: int = if amount == 0 { 1 } else { amount as int };
                r.0 == if grow {
                    if self.0 + step > u32::MAX { u32::MAX as int } else { self.0 + step }
                } else {
                    if self.0 - step < 0 { 0 } else { self.0 - step }
                }
            }),
    {
        let step: u32 = if amount == 0 { 1 } else { amount };
        if grow {
            TextSize(self.0.saturating_add(step))
        } else {
            TextSize(self.0.saturating_sub(step))
        }
    }
}

/// A freehand line: the points the brush went through, its colour and the
/// brush's diameter.
#[derive(Clone, Debug, PartialEq, Eq)]
pub struct Stroke {
    pub points: Vec<Point>,
    pub color: Color,
    pub brush_size: u32,
}

impl Stroke {
    /// A stroke with no points yet.
    pub fn new(color: Color, brush_size: u32) -> (s: Stroke)
        ensures
            s.points@.len() == 0,
            s.color == color,
            s.brush_size == brush_size,
    {
        Stroke { points: Vec::with_capacity(30), color, brush_size }
    }
}

/// A text label, anchored at `position` once it has been placed.
#[derive(Clone, Debug, PartialEq, Eq)]
pub struct Text {
    pub content: String,
    pub position: Option<Point>,
    pub size: TextSize,
    pub color: TextColor,
}

/// `code` is a Unicode scalar value: at most 0x10FFFF and not a surrogate.
pub open spec fn is_scalar_value(code: u32) -> bool {
    code <= 0x10FFFF && !(0xD800 <= code <= 0xDFFF)
}

/// Relies on char::from_u32: `Some` exactly for Unicode scalar values, with
/// that code point.
#[verifier::external_body]
fn char_from_code(code: u32) -> (r: Option<char>)
    ensures
        r is Some <==> is_scalar_value(code),
        r matches Some(c) ==> c as u32 == code,
{
    char::from_u32(code)
}

/// Relies on String::push: the character is appended at the end.
#[verifier::external_body]
fn push_char(s: &mut String, c: char)
    ensures
        final(s)@ == old(s)@.push(c),
{
    s.push(c)
}

/// Types the character with code `ch` into the label being written, starting
/// a new unplaced label of the given size and colour if none is open. A code
/// that is not a Unicode scalar value adds nothing.
pub fn append_input_to_working_text(
    ch: u32,
    working_text: &mut Option<Text>,
    text_size: TextSize,
    text_color: TextColor,
)
    ensures
        *final(working_text) is Some,
        ({
            let t = (*final(working_text)).unwrap();
            let before = match *old(working_text) {
                Some(o) => o.content@,
                None => Seq::<char>::empty(),
            };
            &&& match *old(working_text) {
                Some(o) => t.position == o.position && t.size == o.size && t.color == o.color,
                None => t.position is None && t.size == text_size && t.color == text_color,
            }
            &&& if is_scalar_value(ch) {
                &&& t.content@.len() == before.len() + 1
                &&& t.content@.take(before.len() as int) == before
                &&& t.content@.last() as u32 == ch
            } else {
                t.content@ == before
            }
        }),
{
    if working_text.is_none() {
        *working_text = Some(
            Text { content: String::new(), position: None, size: text_size, color: text_color },
        );
    }
    match char_from_code(ch) {
        Some(c) => match working_text {
            Some(t) => push_char(&mut t.content, c),
            None => {},
        },
        None => {},
    }
}

} // verus!
