//! Folding of lexical Narsese into a representation with meaning, as far as a folder (a
//! format that knows the prefixes, connectors and copulas) allows.
use vstd::prelude::*;

verus! {

/// A value that can be folded into a `Target`, or fails with an `Error` (an unknown
/// prefix, say).
pub trait TryFoldInto<'a, Target, Error>: Sized {
    /// What gives the meaning of the words of the value, the same for every target.
    type Folder;

    /// Folds the value with the help of the folder.
    fn try_fold_into(self, folder: &'a Self::Folder) -> Result<Target, Error>;
}

} // verus!
