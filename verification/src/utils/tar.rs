use vstd::prelude::*;

use crate::text::{split_once, split_once_char};

verus! {

/// The path of a tarball entry inside the package: the entry's path with a
/// leading `package` part taken off, when it has one.
pub open spec fn unpacked_path(entry: Seq<char>) -> Seq<char> {
    if entry == "package"@ {
        Seq::empty()
    } else {
        match split_once(entry, '/') {
            Some((head, rest)) => if head == "package"@ {
                rest
            } else {
                entry
            },
            None => entry,
        }
    }
}

/// Where a tarball entry is unpacked, relative to the target directory:
/// its path with the leading `package` part stripped, if present.
pub fn unpacked_entry_path(entry: &str) -> (r: String)
    ensures
        r@ == unpacked_path(entry@),
{
    let package = String::from_str("package");
    let whole = String::from_str(entry);
    if whole == package {
        return String::new();
    }
    match split_once_char(entry, '/') {
        Some((head, rest)) => if head == package {
            rest
        } else {
            whole
        },
        None => whole,
    }
}

/// The path in the tarball of a file of the packed directory: under
/// `package/`, at its path relative to the directory.
pub fn packed_entry_path(relative: &str) -> (r: String)
    ensures
        r@ == "package/"@ + relative@,
{
    let mut r = String::from_str("package/");
    r.append(relative);
    r
}

} // verus!
