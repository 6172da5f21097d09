//! Text handling taken from the standard library.

use vstd::prelude::*;

verus! {

/// What `str::trim` makes of a text: the text without the white space at its
/// two ends.
pub uninterp spec fn trimmed(text: Seq<char>) -> Seq<char>;

/// `str::trim` returns the slice of its argument that is left when leading
/// and trailing white space is taken away. The result depends on the text
/// alone; this gives it the name [`trimmed`] and claims nothing else of it.
pub assume_specification[ str::trim ](text: &str) -> (res: &str)
    ensures
        res@ == trimmed(text@),
;

} // verus!
