//! A small helper over vectors viewed through `DeepView`.

use vstd::prelude::*;

verus! {

/// Push an element and track the effect on the vector's deep view.
pub fn push_deep<T: DeepView>(v: &mut Vec<T>, t: T)
    ensures
        final(v).deep_view() == old(v).deep_view().push(t.deep_view()),
{
    let ghost prev_raw = v@;
    let ghost prev_deep = v.deep_view();
    let ghost tv = t.deep_view();
    v.push(t);
    proof {
        assert(v@ == prev_raw.push(t));
        assert forall|i: int| 0 <= i < v@.len() implies v.deep_view()[i] == prev_deep.push(tv)[i] by {
            if i < prev_raw.len() {
                assert(prev_raw.push(t)[i] == prev_raw[i]);
            } else {
                assert(prev_raw.push(t)[i] == t);
            }
        }
        assert(v.deep_view() =~= prev_deep.push(tv));
    }
}

} // verus!
