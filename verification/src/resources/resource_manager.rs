//! The resources of a window.
use vstd::prelude::*;
use crate::error::PrismaError;
use crate::resources::font::FontManager;

verus! {

/// Holds every kind of resource a window loads.
pub struct ResourceManager {
    font_manager: FontManager,
}

impl ResourceManager {
    pub closed spec fn spec_fonts(&self) -> FontManager {
        self.font_manager
    }

    /// Nothing loaded.
    pub fn new() -> (m: ResourceManager)
        ensures
            m.spec_fonts().spec_ids() == Set::<u32>::empty(),
    {
        ResourceManager { font_manager: FontManager::new() }
    }

    /// Loads every kind of resource; fails as the first loader fails. No
    /// loader has a source yet, so it succeeds and changes nothing.
    pub fn load_resources(&mut self) -> (r: Result<(), PrismaError>)
        ensures
            r is Ok,
            *final(self) == *old(self),
            final(self).spec_fonts().spec_ids() == old(self).spec_fonts().spec_ids(),
    {
        self.font_manager.load_fonts()?;
        Ok(())
    }
}

} // verus!
