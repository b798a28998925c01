//! A plain-value snapshot of a directory tree, as the scanner hands it to
//! the rule engine.
//!
//! The engine never touches the filesystem itself: the surrounding binary
//! walks the directory once and records, for every entry, the three things
//! the matching rules read — a path text for glob matching, the final path
//! component, and the extension, if any.

use vstd::prelude::*;

verus! {

/// One filesystem entry, reduced to the values the rules inspect.
///
/// `path` is the entry's path as the scanner records it: the starting path
/// itself for the scanned root, and the path relative to that root for every
/// entry below it. `name` is the final path component, and `ext` the
/// extension as `std::path::Path` reports it.
pub struct FsEntry {
    pub path: String,
    pub name: String,
    pub ext: Option<String>,
}

/// A directory tree: an entry together with the subtrees of the entries
/// inside it. A file simply has no children.
pub struct FsTree {
    pub entry: FsEntry,
    pub children: Vec<FsTree>,
}

} // verus!
