use vstd::prelude::*;

verus! {

/// Grammatical gender of an expression.
///
/// `Neutral` is both an explicit grammatical category and the default used
/// when no gender marker is present.
#[derive(Debug, Clone, Copy, PartialEq, Eq, Structural)]
pub enum Gender {
    /// He
    Male,
    /// She
    Female,
    /// Neutral gender, or a gender that was never set
    Neutral,
}

} // verus!
