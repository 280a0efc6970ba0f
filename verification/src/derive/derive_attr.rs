//! Whether the struct also derives a given trait.

use vstd::prelude::*;
use vstd::string::*;
use crate::derive::model::{Attr, AttrBody, DerivePath};
use crate::naming::str_eq;

verus! {

/// Whether a derive path names the trait `name`: its last segment is `name`, without generic
/// arguments (this covers the single-segment path `name` too).
pub open spec fn path_names(path: DerivePath, name: Seq<char>) -> bool {
    path.segments@.len() > 0 && path.segments@.last()@ == name && !path.last_has_args
}

/// Whether an attribute is a `#[derive(...)]` that names `name`.
pub open spec fn attr_derives(attr: Attr, name: Seq<char>) -> bool {
    &&& attr.path@ == "derive"@
    &&& attr.body is Paths
    &&& exists|j: int| 0 <= j < attr.body->Paths_0@.len() && path_names(#[trigger] attr.body->Paths_0@[j], name)
}

/// Whether a derive path names the trait `name`.
pub fn path_matches_trait(path: &DerivePath, name: &str) -> (res: bool)
    ensures
        res == path_names(*path, name@),
{
    let n = path.segments.len();
    n > 0 && str_eq(path.segments[n - 1].as_str(), name) && !path.last_has_args
}

fn derive_attr_contains(attr: &Attr, name: &str) -> (res: bool)
    ensures
        res == attr_derives(*attr, name@),
{
    if !str_eq(attr.path.as_str(), "derive") {
        return false;
    }
    match &attr.body {
        AttrBody::Paths(paths) => {
            let mut j: usize = 0;
            while j < paths.len()
                invariant
                    j <= paths.len(),
                    attr.path@ == "derive"@,
                    attr.body == AttrBody::Paths(*paths),
                    forall|k: int| 0 <= k < j ==> !path_names(#[trigger] paths@[k], name@),
                decreases paths.len() - j,
            {
                if path_matches_trait(&paths[j], name) {
                    assert(path_names(attr.body->Paths_0@[j as int], name@));
                    return true;
                }
                j = j + 1;
            }
            false
        },
        _ => false,
    }
}

/// Returns true if any `#[derive(...)]` among the attributes lists a trait whose path ends with
/// `name` (e.g. `Schema`).
pub fn input_derives(attrs: &Vec<Attr>, name: &str) -> (res: bool)
    ensures
        res == exists|i: int| 0 <= i < attrs@.len() && attr_derives(#[trigger] attrs@[i], name@),
{
    let mut i: usize = 0;
    while i < attrs.len()
        invariant
            i <= attrs.len(),
            forall|k: int| 0 <= k < i ==> !attr_derives(#[trigger] attrs@[k], name@),
        decreases attrs.len() - i,
    {
        if derive_attr_contains(&attrs[i], name) {
            return true;
        }
        i = i + 1;
    }
    false
}

} // verus!
