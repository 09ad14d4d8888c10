//! The text component of a node.
use vstd::prelude::*;
use crate::resources::resource::FontID;
use crate::util::Color;

verus! {

/// How the text is aligned inside its node.
#[derive(Clone, Copy, Debug, PartialEq, Eq, Structural)]
pub struct TextAlign {}

/// The text a node shows.
pub struct NodeText {
    pub content: String,
    pub font: FontID,
    pub size: u16,
    pub color: Color,
    pub align: TextAlign,
}

impl NodeText {
    /// No text, font 0, size 12, opaque black.
    pub fn new() -> (t: NodeText)
        ensures
            t.content@ == Seq::<char>::empty(),
            t.font == (FontID { id: 0 }),
            t.size == 12,
            t.color == (Color { r: 0, g: 0, b: 0, a: 255 }),
    {
        NodeText {
            content: String::new(),
            font: FontID::id(0),
            size: 12,
            color: Color::rgb(0, 0, 0),
            align: TextAlign {},
        }
    }
}

} // verus!
