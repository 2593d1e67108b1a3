use vstd::prelude::*;

verus! {

/// The closed set of poultry species the incubator handles.  Each species has
/// a fixed incubation length in whole days; nothing else about a species
/// matters to the scheduler.
#[derive(Debug, Clone, Copy, PartialEq, Eq, Structural)]
pub enum Species {
    Gallina,
    Anatra,
    Quaglia,
    Oca,
}

impl Species {
    /// Incubation length of this species, in days, as a mathematical value.
    pub open spec fn spec_incubation_days(self) -> int {
        match self {
            Species::Gallina => 21,
            Species::Anatra => 28,
            Species::Quaglia => 18,
            Species::Oca => 30,
        }
    }

    /// Incubation length in whole days: a total, constant mapping over the
    /// enumeration.  Every species maps to a positive number of days.
    pub fn incubation_days(&self) -> (d: i64)
        ensures
            d == self.spec_incubation_days(),
            1 <= d <= 30,
    {
        match self {
            Species::Gallina => 21,
            Species::Anatra => 28,
            Species::Quaglia => 18,
            Species::Oca => 30,
        }
    }

    /// Display name of the species.
    pub open spec fn spec_name(self) -> Seq<char> {
        match self {
            Species::Gallina => "Gallina"@,
            Species::Anatra => "Anatra"@,
            Species::Quaglia => "Quaglia"@,
            Species::Oca => "Oca"@,
        }
    }

    /// The species' display name, also used as its tag in the persisted
    /// encoding of a batch list.
    pub fn name(&self) -> (s: String)
        ensures
            s@ == self.spec_name(),
    {
        match self {
            Species::Gallina => "Gallina".to_owned(),
            Species::Anatra => "Anatra".to_owned(),
            Species::Quaglia => "Quaglia".to_owned(),
            Species::Oca => "Oca".to_owned(),
        }
    }
}

} // verus!
