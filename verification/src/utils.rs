//! Small string helpers for the banner line.

use vstd::prelude::*;
use vstd::string::{StrSliceExecFns, StringExecFns};

verus! {

/// Rotates a string one step: the last character moves to the front.
/// The argument loses its last character; the rotation is returned.
pub fn rotate_string(i: &mut String) -> (r: String)
    requires
        old(i)@.len() >= 1,
    ensures
        final(i)@ == old(i)@.drop_last(),
        r@ == seq![old(i)@.last()] + old(i)@.drop_last(),
{
    let n = i.as_str().unicode_len();
    let last = i.as_str().substring_char(n - 1, n).to_owned();
    let rest = i.as_str().substring_char(0, n - 1).to_owned();
    let r = last.concat(rest.as_str());
    *i = rest;
    proof {
        assert(final(i)@ =~= old(i)@.drop_last());
        assert(r@ =~= seq![old(i)@.last()] + old(i)@.drop_last());
    }
    r
}

} // verus!
