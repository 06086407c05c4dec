use vstd::prelude::*;

verus! {

/// A colour with 8-bit red, green, blue and alpha channels.
#[derive(Debug, Clone, Copy, PartialEq, Eq, Structural)]
pub struct LuaColor {
    pub r: u8,
    pub g: u8,
    pub b: u8,
    pub a: u8,
}

impl Default for LuaColor {
    fn default() -> (r: Self)
        ensures
            r == (LuaColor { r: 0, g: 0, b: 0, a: 0 }),
    {
        LuaColor { r: 0, g: 0, b: 0, a: 0 }
    }
}

/// Where text sits along an axis.
#[derive(Debug, Clone, Copy, PartialEq, Eq, Structural)]
pub enum LuaTextAlign {
    Start,
    Middle,
    End,
}

impl Default for LuaTextAlign {
    fn default() -> (r: Self)
        ensures
            r == LuaTextAlign::Middle,
    {
        LuaTextAlign::Middle
    }
}

/// How lines of text are justified.
#[derive(Debug, Clone, Copy, PartialEq, Eq, Structural)]
pub enum Justify {
    Left,
    Center,
    Right,
}

impl LuaTextAlign {
    /// The justification an alignment gives a line: start on the left,
    /// middle in the centre, end on the right.
    pub fn justify(&self) -> (r: Justify)
        ensures
            r == match self {
                LuaTextAlign::Start => Justify::Left,
                LuaTextAlign::Middle => Justify::Center,
                LuaTextAlign::End => Justify::Right,
            },
    {
        match self {
            LuaTextAlign::Start => Justify::Left,
            LuaTextAlign::Middle => Justify::Center,
            LuaTextAlign::End => Justify::Right,
        }
    }
}

/// Where long lines of text are broken.
#[derive(Debug, Clone, Copy, PartialEq, Eq, Structural)]
pub enum LuaTextWrap {
    /// At any character.
    Character,
    /// At white space.
    Whitespace,
}

impl Default for LuaTextWrap {
    fn default() -> (r: Self)
        ensures
            r == LuaTextWrap::Whitespace,
    {
        LuaTextWrap::Whitespace
    }
}

} // verus!
