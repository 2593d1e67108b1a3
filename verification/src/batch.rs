use crate::species::Species;
use vstd::prelude::*;

verus! {

/// The mathematical value of a [`Batch`]: the species, the description as a
/// sequence of characters, and the egg count.
pub struct BatchModel {
    pub species: Species,
    pub description: Seq<char>,
    pub egg_count: u32,
}

/// One egg group within a session: a species, a free-text label (possibly
/// empty), and how many eggs went in.  A batch has no identity of its own; it
/// lives and dies with the session that owns it.
#[derive(Debug, Clone)]
pub struct Batch {
    pub species: Species,
    pub description: String,
    pub egg_count: u32,
}

impl View for Batch {
    type V = BatchModel;

    open spec fn view(&self) -> BatchModel {
        BatchModel {
            species: self.species,
            description: self.description@,
            egg_count: self.egg_count,
        }
    }
}

impl Batch {
    /// A batch is well formed when it holds at least one egg.
    pub open spec fn wf(self) -> bool {
        self.egg_count >= 1
    }

    pub fn new(species: Species, description: String, egg_count: u32) -> (b: Batch)
        ensures
            b.species == species,
            b.description@ == description@,
            b.egg_count == egg_count,
    {
        Batch { species, description, egg_count }
    }
}

impl PartialEq for Batch {
    fn eq(&self, other: &Batch) -> (r: bool) {
        self.species == other.species && self.description == other.description
            && self.egg_count == other.egg_count
    }
}

impl vstd::std_specs::cmp::PartialEqSpecImpl for Batch {
    open spec fn obeys_eq_spec() -> bool {
        true
    }

    open spec fn eq_spec(&self, other: &Batch) -> bool {
        self.species == other.species && self.description@ == other.description@
            && self.egg_count == other.egg_count
    }
}

} // verus!
