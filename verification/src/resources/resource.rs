//! The kinds of resources a window can load, and their identifiers.
use vstd::prelude::*;

verus! {

/// The kind of a resource.
#[derive(Clone, Copy, Debug, PartialEq, Eq, Structural)]
pub enum ResourceType {
    Font,
    Image,
}

/// Something a resource manager can hold.
pub trait Resource {
    /// The kind of this resource.
    fn resource_type() -> (r: ResourceType);
}

/// A loaded font, known by its name; the font library's handle of it is kept
/// by the windowing side, which opens and draws it.
pub struct Font {
    pub name: String,
}

impl Resource for Font {
    fn resource_type() -> (r: ResourceType)
        ensures
            r == ResourceType::Font,
    {
        ResourceType::Font
    }
}

/// A loaded image.
pub struct Image {
    pub path: String,
}

impl Resource for Image {
    fn resource_type() -> (r: ResourceType)
        ensures
            r == ResourceType::Image,
    {
        ResourceType::Image
    }
}

/// Identifies a font.
#[derive(Clone, Copy, Debug, PartialEq, Eq, Structural, Hash, PartialOrd, Ord)]
pub struct FontID {
    pub id: u32,
}

impl FontID {
    pub fn id(id: u32) -> (r: FontID)
        ensures
            r.id == id,
    {
        FontID { id }
    }
}

/// Identifies an image.
#[derive(Clone, Copy, Debug, PartialEq, Eq, Structural, Hash, PartialOrd, Ord)]
pub struct ImageID {
    pub id: u32,
}

impl ImageID {
    pub fn id(id: u32) -> (r: ImageID)
        ensures
            r.id == id,
    {
        ImageID { id }
    }
}

} // verus!
