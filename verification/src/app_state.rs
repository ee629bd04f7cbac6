use vstd::prelude::*;
use crate::pattern::StrummingPattern;

verus! {

/// The single working state of the application: exactly one current pattern.
#[derive(Debug)]
pub struct AppState {
    pub strumming_pattern: StrummingPattern,
}

impl AppState {
    /// A fresh state holding one randomly generated eight-slot pattern.
    pub fn new() -> (r: AppState)
        ensures
            r.strumming_pattern@.len() == 8,
    {
        AppState { strumming_pattern: StrummingPattern::new_random(8) }
    }
}

} // verus!
