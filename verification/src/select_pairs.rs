//! The table of people from which a pair is chosen.

use vstd::prelude::*;
use crate::structs::{Contributor, ContributorView};

verus! {

/// The columns of the table of people.
#[derive(Copy, Clone, PartialEq, Eq, Hash, Debug, Structural)]
pub enum BasicColumn {
    Name,
    Email,
}

/// What the table shows of `person` in `column`.
pub open spec fn column_text(person: ContributorView, column: BasicColumn) -> Seq<char> {
    match column {
        BasicColumn::Name => person.name,
        BasicColumn::Email => person.email,
    }
}

impl Contributor {
    /// The text of this person in `column`.
    pub fn to_column(&self, column: BasicColumn) -> (text: String)
        ensures
            text@ == column_text(self@, column),
    {
        match column {
            BasicColumn::Name => self.name.clone(),
            BasicColumn::Email => self.email.clone(),
        }
    }
}

} // verus!
