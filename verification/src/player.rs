//! Players.

use crate::input::Input;
use vstd::prelude::*;

verus! {

/// A connected player and the input they sent last.
#[derive(Debug, PartialEq, Eq)]
pub struct Player {
    pub name: String,
    pub input: Input,
}

impl Clone for Player {
    fn clone(&self) -> (copy: Self)
        ensures
            copy == *self,
    {
        Player { name: self.name.clone(), input: self.input }
    }
}

} // verus!
