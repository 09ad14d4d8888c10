//! The fonts a window has loaded.
use vstd::prelude::*;
use std::collections::HashMap;
use crate::error::PrismaError;
use crate::resources::resource::{Font, FontID};
use crate::message::{decimal, push_decimal, push_str, string_from_chars};

verus! {

broadcast use vstd::std_specs::hash::group_hash_axioms;

/// The message of a font that is not loaded.
pub open spec fn font_missing_text(n: u32) -> Seq<char> {
    "Font with ID "@ + decimal(n as nat) + " not found"@
}

/// The message of the missing font `id`: "Font with ID ", the number in
/// decimal, " not found".
fn font_not_found_message(id: FontID) -> (r: String)
    ensures
        r@ == font_missing_text(id.id),
{
    let mut v: Vec<char> = Vec::new();
    push_str(&mut v, "Font with ID ");
    push_decimal(&mut v, id.id);
    push_str(&mut v, " not found");
    assert(v@ =~= font_missing_text(id.id));
    string_from_chars(&v)
}

/// Holds the loaded fonts by identifier number.
pub struct FontManager {
    font: HashMap<u32, Font>,
}

impl FontManager {
    /// The numbers of the loaded fonts.
    pub closed spec fn spec_ids(&self) -> Set<u32> {
        self.font@.dom()
    }

    /// No fonts.
    pub fn new() -> (m: FontManager)
        ensures
            m.spec_ids() == Set::<u32>::empty(),
    {
        FontManager { font: HashMap::new() }
    }

    /// Loads the fonts of the window; no font source is configured, so none
    /// is loaded.
    pub fn load_fonts(&mut self) -> (r: Result<(), PrismaError>)
        ensures
            r is Ok,
            *final(self) == *old(self),
            final(self).spec_ids() == old(self).spec_ids(),
    {
        Ok(())
    }

    /// The font with identifier `id`.
    ///
    /// Returns [`PrismaError::ResourceNotFound`] with the message
    /// "Font with ID `id` not found" if it is not loaded.
    pub fn get_font(&self, id: FontID) -> (r: Result<&Font, PrismaError>)
        ensures
            self.spec_ids().contains(id.id) <==> r is Ok,
            !self.spec_ids().contains(id.id) ==> (r matches Err(PrismaError::ResourceNotFound(m)) && m@ == font_missing_text(id.id)),
    {
        match self.font.get(&id.id) {
            Some(f) => Ok(f),
            None => Err(PrismaError::ResourceNotFound(font_not_found_message(id))),
        }
    }
}

} // verus!
