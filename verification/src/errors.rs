use vstd::prelude::*;

verus! {

/// The failures that rule evaluation can surface.
///
/// `InvalidInput` reports a card number that contains a non-digit character:
/// such input is rejected before any rule is evaluated.  `InvalidRuleBounds`
/// reports a `Range` rule whose bound strings cannot be read as non-negative
/// integers at the width the comparison is made at; that is a catalog-authoring
/// defect, not a runtime condition caused by ordinary user input.
#[derive(Clone, Copy, Debug, PartialEq, Eq, Structural)]
pub enum CardTypeError {
    InvalidInput,
    InvalidRuleBounds,
}

impl CardTypeError {
    /// A short human-readable description of the error.
    pub fn message(&self) -> (r: &'static str)
        ensures
            *self == CardTypeError::InvalidInput ==> r@ == "card number contains a non-digit character"@,
            *self == CardTypeError::InvalidRuleBounds ==> r@
                == "range rule bounds are not valid digit strings"@,
    {
        match self {
            CardTypeError::InvalidInput => "card number contains a non-digit character",
            CardTypeError::InvalidRuleBounds => "range rule bounds are not valid digit strings",
        }
    }
}

} // verus!
