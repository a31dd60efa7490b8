//! Why a text is not a value of a property.

use vstd::prelude::*;

verus! {

/// The ways in which reading a value fails.
#[derive(Clone, Copy, Debug, PartialEq, Eq, Structural)]
pub enum ValueError {
    /// A word that should be a number is none.
    NotANumber,
    /// The numbers are well formed, but the property takes another count of them.
    WrongCount,
    /// The text is none of the keywords of the property.
    UnknownKeyword,
    /// The text is no color.
    InvalidColor,
}

} // verus!
