//! Traits that concepts of the knowledge base implement for the code generator.
use vstd::prelude::*;
use std::rc::Rc;

verus! {

/// A concept whose documentation can be set and retrieved.
pub trait Documentable {
    /// Set documentation for this concept.
    fn set_documentation(&mut self, doc: &str);

    /// Retrieve documentation for this concept, if it exists.
    fn documentation(&self) -> Option<Rc<String>>;
}

/// Marks the types that keep working across API changes within one release line.
pub trait BackwardsCompatibility {}

} // verus!
