//! Booleans whose node may be written bare (without an argument), with a
//! default for the bare form.

use vstd::prelude::*;

verus! {

/// The boolean read for a node: its explicit argument if it has one,
/// otherwise (a bare node name) the default.
pub open spec fn spec_bare_default(explicit: Option<bool>, default: bool) -> bool {
    match explicit {
        Some(b) => b,
        None => default,
    }
}

/// The boolean for a node given its explicit argument (`None` for a bare
/// node name) and the default for a bare node.
pub fn bare_default(explicit: Option<bool>, default: bool) -> (r: bool)
    ensures
        r == spec_bare_default(explicit, default),
{
    match explicit {
        Some(b) => b,
        None => default,
    }
}

/// A boolean whose bare node name means `true`: `enabled` is `true`,
/// `enabled #false` is `false`.
pub fn bare_true(explicit: Option<bool>) -> (r: bool)
    ensures
        r == spec_bare_default(explicit, true),
{
    bare_default(explicit, true)
}

/// A boolean whose bare node name means `false`: `disabled` is `false`,
/// `disabled #true` is `true`.
pub fn bare_false(explicit: Option<bool>) -> (r: bool)
    ensures
        r == spec_bare_default(explicit, false),
{
    bare_default(explicit, false)
}

} // verus!
