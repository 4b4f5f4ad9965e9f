//! Discovery: picks the working directories out of what a walk of a
//! directory tree found.
//!
//! Walking the tree is left to the caller, who hands over one item for each
//! entry the walk came by, in the order of the walk. Every entry whose file
//! name ends with `.hcl` makes the directory that holds it a unit. Two such
//! entries in one directory make that directory a unit twice.

use vstd::prelude::*;
use crate::text::{chars_of, ends_with, ends_with_chars};

verus! {

/// An entry of a directory tree, as far as discovery reads it.
#[derive(Debug, Clone, PartialEq, Eq)]
pub struct WalkEntry {
    /// The entry's file name: the last component of its path, or the whole
    /// path if it has no such component.
    pub file_name: String,
    /// The directory that holds the entry: its path without the last
    /// component. `None` for a path that has no parent.
    pub parent: Option<String>,
}

/// `name` is the name of a configuration file.
pub open spec fn is_marker_name(name: Seq<char>) -> bool {
    ends_with(name, ".hcl"@)
}

/// The unit that one item of a walk stands for, if any: the parent of a
/// readable entry with the name of a configuration file. An item of `None`
/// is an entry that the walk could not read; it stands for nothing.
pub open spec fn unit_of(item: Option<WalkEntry>) -> Option<Seq<char>> {
    match item {
        Some(entry) => match entry.parent {
            Some(parent) if is_marker_name(entry.file_name@) => Some(parent@),
            _ => None,
        },
        None => None,
    }
}

/// The units that the items of a walk stand for, in the order of the walk.
pub open spec fn work_units(items: Seq<Option<WalkEntry>>) -> Seq<Seq<char>>
    decreases items.len(),
{
    if items.len() == 0 {
        Seq::empty()
    } else {
        match unit_of(items.last()) {
            Some(dir) => work_units(items.drop_last()).push(dir),
            None => work_units(items.drop_last()),
        }
    }
}

/// Collects the working directories among the items of a walk: the parent
/// of each readable entry whose file name ends with `.hcl`, in the order of
/// the walk and as often as it occurs. Entries that the walk could not read,
/// given as `None`, are passed over.
pub fn find_tg_dirs(items: &Vec<Option<WalkEntry>>) -> (dirs: Vec<String>)
    ensures
        dirs@.len() == work_units(items@).len(),
        forall|j: int| 0 <= j < dirs@.len() ==> (#[trigger] dirs@[j])@ == work_units(items@)[j],
{
    let suffix = chars_of(".hcl");
    let mut dirs: Vec<String> = Vec::new();
    let mut i: usize = 0;
    while i < items.len()
        invariant
            i <= items.len(),
            suffix@ == ".hcl"@,
            dirs@.len() == work_units(items@.take(i as int)).len(),
            forall|j: int|
                0 <= j < dirs@.len() ==> (#[trigger] dirs@[j])@ == work_units(
                    items@.take(i as int),
                )[j],
        decreases items.len() - i,
    {
        assert(items@.take(i + 1).drop_last() =~= items@.take(i as int));
        match &items[i] {
            Some(entry) => {
                let name = chars_of(entry.file_name.as_str());
                if ends_with_chars(name.as_slice(), suffix.as_slice()) {
                    match &entry.parent {
                        Some(parent) => {
                            dirs.push(parent.clone());
                        },
                        None => {},
                    }
                }
            },
            None => {},
        }
        i += 1;
    }
    assert(items@.take(i as int) =~= items@);
    dirs
}

} // verus!
