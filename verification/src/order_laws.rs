//! Laws of the order of texts and of sorting.
use crate::order;
use vstd::prelude::*;

verus! {

/// The first difference decides: of two texts that go on differently behind what they have in common,
/// the one that ends there, or goes on with the smaller character, is before the other.
pub proof fn law_first_difference_decides(common: Seq<char>, a: Seq<char>, b: Seq<char>)
    requires
        a.len() == 0 || b.len() == 0 || a[0] != b[0],
    ensures
        order::text_less(common + a, common + b) <==> b.len() > 0 && (a.len() == 0 || a[0] < b[0]),
    decreases common.len(),
{
    let x = common + a;
    let y = common + b;
    if common.len() == 0 {
        assert(x =~= a);
        assert(y =~= b);
    } else {
        law_first_difference_decides(common.drop_first(), a, b);
        assert(x.drop_first() =~= common.drop_first() + a);
        assert(y.drop_first() =~= common.drop_first() + b);
    }
}

/// Sorting puts every item in one place, by its key, the least first or, where it is descending, the
/// greatest first; items with the same key keep the order they have.
pub proof fn law_sorting<T>(items: Seq<T>, keys: Seq<Seq<char>>, descending: bool)
    requires
        items.len() == keys.len() <= usize::MAX,
    ensures
        ({
            let at = order::sort_order(keys, descending);
            let out = order::arranged(items, keys, descending);
            &&& out.len() == items.len()
            &&& at.len() == items.len()
            &&& at.no_duplicates()
            &&& forall|i: int|
                0 <= i < out.len() ==> (#[trigger] at[i]) < items.len() && out[i]
                    == items[at[i] as int]
            &&& forall|i: int, j: int|
                0 <= i < j < out.len() ==> {
                    let a = keys[#[trigger] at[i] as int];
                    let b = keys[#[trigger] at[j] as int];
                    &&& a == b ==> at[i] < at[j]
                    &&& a != b && !descending ==> order::text_less(a, b)
                    &&& a != b && descending ==> order::text_less(b, a)
                }
        }),
{
    order::lemma_sort_order(keys, descending);
    let at = order::sort_order(keys, descending);
    assert forall|i: int, j: int| 0 <= i < j < at.len() implies at[i] != at[j] by {
        assert(order::goes_before(keys, descending, at[i] as int, at[j] as int));
    }
}

} // verus!
