use vstd::prelude::*;

verus! {

/// The output surface, in character cells.
#[derive(Clone, Copy, Debug, PartialEq, Eq, Structural)]
pub struct TermSize {
    pub width: u32,
    pub height: u32,
}

} // verus!
