use vstd::prelude::*;

verus! {

/// A resource that is saved when it changes, at a moment that it declares proper.
pub trait ShouldSave {
    /// Whether the resource is ready to be saved.
    spec fn spec_save_ready(&self) -> bool;

    /// Whether the resource is ready to be saved.
    fn save_ready(&self) -> (r: bool)
        ensures
            r == self.spec_save_ready(),
    ;

    /// Marks the resource as ready, or not, to be saved.
    fn set_save_ready(&mut self, ready: bool)
        ensures
            final(self).spec_save_ready() == ready,
    ;
}

} // verus!
