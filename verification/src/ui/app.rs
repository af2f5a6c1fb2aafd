//! What the user has picked in the tree.

use vstd::prelude::*;

verus! {

/// A file picked in the tree: by its offset in the archive, or by its path
/// hash in the index.
#[derive(Clone, Copy, PartialEq, Eq, Debug, Structural)]
pub enum FileSelection {
    GgpkOffset(u64),
    BundleFile(u64),
}

} // verus!
