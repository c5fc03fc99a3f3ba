//! The resource paths of the bridge's API, relative to its root.
use crate::text::{decimal, push_decimal};
use vstd::prelude::*;

verus! {

/// `prefix` followed by the decimal numeral of `id` and by `suffix`.
pub open spec fn path_of(prefix: Seq<char>, id: u8, suffix: Seq<char>) -> Seq<char> {
    prefix + decimal(id as nat) + suffix
}

/// The path `prefix{id}suffix`.
pub fn id_path(prefix: &str, id: u8, suffix: &str) -> (r: String)
    ensures
        r@ == path_of(prefix@, id, suffix@),
{
    let mut out = prefix.to_owned();
    push_decimal(&mut out, id as u64);
    out.append(suffix);
    out
}

} // verus!
