//! Reading back an entry that a menu shows as `source<TAB>name<TAB>description`.
use vstd::prelude::*;

use crate::text::{split_once, split_once_spec};

verus! {

/// The recipe name in a menu selection: the source column and the
/// description column removed, where they are there.
pub open spec fn selected_name(selection: Seq<char>) -> Seq<char> {
    let after_source = match split_once_spec(selection, '\t') {
        Some((_, rest)) => rest,
        None => selection,
    };
    match split_once_spec(after_source, '\t') {
        Some((name, _)) => name,
        None => after_source,
    }
}

/// Strips the source and description columns from a menu selection.
pub fn extract_recipe_name(selection: &str) -> (r: &str)
    ensures
        r@ == selected_name(selection@),
{
    let after_source = match split_once(selection, '\t') {
        Some((_, rest)) => rest,
        None => selection,
    };
    match split_once(after_source, '\t') {
        Some((name, _)) => name,
        None => after_source,
    }
}

} // verus!
