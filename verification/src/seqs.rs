//! One sequence recursion shared by every "step each element, keep the
//! survivors" pass: bullets leaving the playfield, debris running out of
//! life, exhaust burning out.

use vstd::prelude::*;

verus! {

/// The first `i` elements of `s`, each mapped through `f`, keeping in
/// order exactly those whose image satisfies `p`.
pub open spec fn stepped_kept<A>(
    s: Seq<A>,
    f: spec_fn(A) -> A,
    p: spec_fn(A) -> bool,
    i: int,
) -> Seq<A>
    decreases i,
{
    if i <= 0 {
        Seq::empty()
    } else {
        let rest = stepped_kept(s, f, p, i - 1);
        let x = f(s[i - 1]);
        if p(x) {
            rest.push(x)
        } else {
            rest
        }
    }
}

} // verus!
