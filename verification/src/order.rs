//! The order of texts, and stable sorting by a text key.
use crate::text;
use vstd::prelude::*;

verus! {

/// The dictionary order of texts: by the first character in which they differ, a text before its
/// own continuations. It is the order in which strings compare.
pub open spec fn text_less(a: Seq<char>, b: Seq<char>) -> bool
    decreases a.len(),
{
    if b.len() == 0 {
        false
    } else if a.len() == 0 {
        true
    } else if a[0] != b[0] {
        a[0] < b[0]
    } else {
        text_less(a.drop_first(), b.drop_first())
    }
}

/// No text is before itself.
pub proof fn lemma_text_less_irreflexive(a: Seq<char>)
    ensures
        !text_less(a, a),
    decreases a.len(),
{
    if a.len() > 0 {
        lemma_text_less_irreflexive(a.drop_first());
    }
}

/// The dictionary order is transitive.
pub proof fn lemma_text_less_transitive(a: Seq<char>, b: Seq<char>, c: Seq<char>)
    requires
        text_less(a, b),
        text_less(b, c),
    ensures
        text_less(a, c),
    decreases a.len(),
{
    if a.len() > 0 && b.len() > 0 && c.len() > 0 && a[0] == b[0] && b[0] == c[0] {
        lemma_text_less_transitive(a.drop_first(), b.drop_first(), c.drop_first());
    }
}

/// Of two different texts one is before the other.
pub proof fn lemma_text_less_total(a: Seq<char>, b: Seq<char>)
    ensures
        a == b || text_less(a, b) || text_less(b, a),
    decreases a.len(),
{
    if a.len() > 0 && b.len() > 0 && a[0] == b[0] {
        lemma_text_less_total(a.drop_first(), b.drop_first());
        if a.drop_first() == b.drop_first() {
            assert(a =~= seq![a[0]] + a.drop_first());
            assert(b =~= seq![b[0]] + b.drop_first());
        }
    } else if a.len() == 0 && b.len() == 0 {
        assert(a =~= b);
    }
}

/// Whether `a` is before `b` in dictionary order.
fn chars_before(a: &Vec<char>, b: &Vec<char>) -> (r: bool)
    ensures
        r == text_less(a@, b@),
{
    let mut i: usize = 0;
    assert(a@.skip(0) =~= a@);
    assert(b@.skip(0) =~= b@);
    loop
        invariant
            i <= a@.len(),
            i <= b@.len(),
            text_less(a@, b@) == text_less(a@.skip(i as int), b@.skip(i as int)),
        decreases a@.len() - i,
    {
        if i >= b.len() {
            return false;
        }
        if i >= a.len() {
            return true;
        }
        if a[i] != b[i] {
            return a[i] < b[i];
        }
        assert(a@.skip(i as int).drop_first() =~= a@.skip(i + 1));
        assert(b@.skip(i as int).drop_first() =~= b@.skip(i + 1));
        i = i + 1;
    }
}

/// Whether position `p` goes before position `q` when the keys are sorted: by the key, the least
/// first or, where `descending`, the greatest first, and among equal keys by the position.
pub open spec fn goes_before(keys: Seq<Seq<char>>, descending: bool, p: int, q: int) -> bool {
    if keys[p] == keys[q] {
        p < q
    } else if descending {
        text_less(keys[q], keys[p])
    } else {
        text_less(keys[p], keys[q])
    }
}

/// `goes_before` is transitive.
pub proof fn lemma_goes_before_transitive(
    keys: Seq<Seq<char>>,
    descending: bool,
    p: int,
    q: int,
    r: int,
)
    requires
        goes_before(keys, descending, p, q),
        goes_before(keys, descending, q, r),
    ensures
        goes_before(keys, descending, p, r),
{
    let a = keys[p];
    let b = keys[q];
    let c = keys[r];
    lemma_text_less_irreflexive(a);
    lemma_text_less_irreflexive(b);
    if a != b && b != c {
        if descending {
            lemma_text_less_transitive(c, b, a);
        } else {
            lemma_text_less_transitive(a, b, c);
        }
    }
}

/// Two different positions go in exactly one order.
pub proof fn lemma_goes_before_total(keys: Seq<Seq<char>>, descending: bool, p: int, q: int)
    requires
        p != q,
    ensures
        goes_before(keys, descending, p, q) <==> !goes_before(keys, descending, q, p),
{
    lemma_text_less_total(keys[p], keys[q]);
    if text_less(keys[p], keys[q]) && text_less(keys[q], keys[p]) {
        lemma_text_less_transitive(keys[p], keys[q], keys[p]);
        lemma_text_less_irreflexive(keys[p]);
    }
}

/// Whether `order` lists every position of `keys` once, in the order of `goes_before`.
pub open spec fn sorted_order(keys: Seq<Seq<char>>, descending: bool, order: Seq<usize>) -> bool {
    &&& order.len() == keys.len()
    &&& forall|i: int| 0 <= i < order.len() ==> #[trigger] order[i] < keys.len()
    &&& forall|p: usize| p < keys.len() ==> #[trigger] order.contains(p)
    &&& forall|i: int, j: int|
        0 <= i < j < order.len() ==> goes_before(
            keys,
            descending,
            #[trigger] order[i] as int,
            #[trigger] order[j] as int,
        )
}

/// Whether the positions in `order` follow `goes_before` and lie in the range.
spec fn ordered_within(
    keys: Seq<Seq<char>>,
    descending: bool,
    order: Seq<usize>,
    lo: int,
    hi: int,
) -> bool {
    &&& forall|i: int| 0 <= i < order.len() ==> lo <= #[trigger] order[i] < hi
    &&& forall|i: int, j: int|
        0 <= i < j < order.len() ==> goes_before(
            keys,
            descending,
            #[trigger] order[i] as int,
            #[trigger] order[j] as int,
        )
}

/// As many different positions as there are keys are all the positions.
proof fn lemma_all_positions(keys: Seq<Seq<char>>, descending: bool, order: Seq<usize>)
    requires
        order.len() == keys.len(),
        ordered_within(keys, descending, order, 0, keys.len() as int),
    ensures
        sorted_order(keys, descending, order),
{
    assert forall|i: int, j: int| 0 <= i < j < order.len() implies order[i] != order[j] by {
        assert(goes_before(keys, descending, order[i] as int, order[j] as int));
    }
    assert(order.no_duplicates());
    let positions = order.map_values(|u: usize| u as int);
    assert(positions.no_duplicates());
    positions.unique_seq_to_set();
    let range = vstd::set_lib::set_int_range(0, keys.len() as int);
    vstd::set_lib::lemma_int_range(0, keys.len() as int);
    assert(positions.to_set().subset_of(range)) by {
        assert forall|p: int| positions.to_set().contains(p) implies range.contains(p) by {
            let i = choose|i: int| 0 <= i < positions.len() && positions[i] == p;
            assert(order[i] == p);
        }
    }
    vstd::set_lib::lemma_subset_equality(positions.to_set(), range);
    assert forall|p: usize| p < keys.len() implies #[trigger] order.contains(p) by {
        assert(range.contains(p as int));
        assert(positions.to_set().contains(p as int));
        let i = choose|i: int| 0 <= i < positions.len() && positions[i] == p;
        assert(order[i] == p);
    }
}

/// The characters of each key.
pub open spec fn key_texts(keys: Seq<Vec<char>>) -> Seq<Seq<char>> {
    Seq::new(keys.len(), |i: int| keys[i]@)
}

/// Merges two ordered runs of neighbouring ranges.
fn merge(
    keys: &Vec<Vec<char>>,
    descending: bool,
    left: &Vec<usize>,
    right: &Vec<usize>,
    lo: usize,
    mid: usize,
    hi: usize,
) -> (out: Vec<usize>)
    requires
        lo <= mid <= hi <= keys@.len(),
        left@.len() == mid - lo,
        right@.len() == hi - mid,
        ordered_within(key_texts(keys@), descending, left@, lo as int, mid as int),
        ordered_within(key_texts(keys@), descending, right@, mid as int, hi as int),
    ensures
        out@.len() == hi - lo,
        ordered_within(key_texts(keys@), descending, out@, lo as int, hi as int),
{
    let ghost k = key_texts(keys@);
    let mut out: Vec<usize> = Vec::new();
    let mut i: usize = 0;
    let mut j: usize = 0;
    while i < left.len() || j < right.len()
        invariant
            k == key_texts(keys@),
            lo <= mid <= hi <= keys@.len(),
            left@.len() == mid - lo,
            right@.len() == hi - mid,
            ordered_within(k, descending, left@, lo as int, mid as int),
            ordered_within(k, descending, right@, mid as int, hi as int),
            i <= left@.len(),
            j <= right@.len(),
            out@.len() == i + j,
            ordered_within(k, descending, out@, lo as int, hi as int),
            forall|a: int, b: int|
                0 <= a < out@.len() && i <= b < left@.len() ==> goes_before(
                    k,
                    descending,
                    #[trigger] out@[a] as int,
                    #[trigger] left@[b] as int,
                ),
            forall|a: int, b: int|
                0 <= a < out@.len() && j <= b < right@.len() ==> goes_before(
                    k,
                    descending,
                    #[trigger] out@[a] as int,
                    #[trigger] right@[b] as int,
                ),
        decreases left@.len() - i + right@.len() - j,
    {
        let take_left: bool = if i >= left.len() {
            false
        } else if j >= right.len() {
            true
        } else {
            let l: usize = left[i];
            let r: usize = right[j];
            if descending {
                !chars_before(&keys[l], &keys[r])
            } else {
                !chars_before(&keys[r], &keys[l])
            }
        };
        if take_left {
            let x: usize = left[i];
            proof {
                assert forall|b: int| j <= b < right@.len() implies goes_before(
                    k,
                    descending,
                    x as int,
                    #[trigger] right@[b] as int,
                ) by {
                    let r = right@[j as int];
                    lemma_text_less_total(k[x as int], k[r as int]);
                    assert(goes_before(k, descending, x as int, r as int));
                    if b > j {
                        lemma_goes_before_transitive(
                            k,
                            descending,
                            x as int,
                            r as int,
                            right@[b] as int,
                        );
                    }
                }
            }
            out.push(x);
            i = i + 1;
        } else {
            let x: usize = right[j];
            proof {
                assert forall|b: int| i <= b < left@.len() implies goes_before(
                    k,
                    descending,
                    x as int,
                    #[trigger] left@[b] as int,
                ) by {
                    let l = left@[i as int];
                    lemma_text_less_irreflexive(k[x as int]);
                    assert(goes_before(k, descending, x as int, l as int));
                    if b > i {
                        lemma_goes_before_transitive(
                            k,
                            descending,
                            x as int,
                            l as int,
                            left@[b] as int,
                        );
                    }
                }
            }
            out.push(x);
            j = j + 1;
        }
    }
    out
}

/// The positions from `lo` up to, not including, `hi`, in order.
fn sort_range(keys: &Vec<Vec<char>>, descending: bool, lo: usize, hi: usize) -> (out: Vec<usize>)
    requires
        lo <= hi <= keys@.len(),
    ensures
        out@.len() == hi - lo,
        ordered_within(key_texts(keys@), descending, out@, lo as int, hi as int),
    decreases hi - lo,
{
    if hi - lo <= 1 {
        let mut out: Vec<usize> = Vec::new();
        if lo < hi {
            out.push(lo);
        }
        return out;
    }
    let mid: usize = lo + (hi - lo) / 2;
    let left = sort_range(keys, descending, lo, mid);
    let right = sort_range(keys, descending, mid, hi);
    merge(keys, descending, &left, &right, lo, mid, hi)
}

/// The positions of the keys in sorted order; equal keys keep the order they have.
pub open spec fn sort_order(keys: Seq<Seq<char>>, descending: bool) -> Seq<usize> {
    choose|order: Seq<usize>| sorted_order(keys, descending, order)
}

/// The items in the sorted order of their keys; items with equal keys keep the order they have.
pub open spec fn arranged<T>(items: Seq<T>, keys: Seq<Seq<char>>, descending: bool) -> Seq<T> {
    let order = sort_order(keys, descending);
    Seq::new(order.len(), |i: int| items[order[i] as int])
}

/// The positions of the keys in sorted order; equal keys keep the order they have.
pub fn sort_positions(keys: &Vec<Vec<char>>, descending: bool) -> (order: Vec<usize>)
    ensures
        sorted_order(key_texts(keys@), descending, order@),
        order@ == sort_order(key_texts(keys@), descending),
{
    let order = sort_range(keys, descending, 0, keys.len());
    proof {
        let k = key_texts(keys@);
        lemma_all_positions(k, descending, order@);
        lemma_sorted_order_unique(k, descending, order@, sort_order(k, descending));
    }
    order
}

/// How many of the first `m` positions of `order` go before position `p`, where they are in order.
spec fn insert_point(
    keys: Seq<Seq<char>>,
    descending: bool,
    order: Seq<usize>,
    p: int,
    m: int,
) -> int
    decreases m,
{
    if m <= 0 {
        0
    } else if goes_before(keys, descending, order[m - 1] as int, p) {
        m
    } else {
        insert_point(keys, descending, order, p, m - 1)
    }
}

/// What stands before the insertion point goes before the position, and what stands behind it goes
/// behind.
proof fn lemma_insert_point(
    keys: Seq<Seq<char>>,
    descending: bool,
    order: Seq<usize>,
    p: int,
    m: int,
)
    requires
        0 <= m <= order.len(),
        ordered_within(keys, descending, order, 0, p),
    ensures
        ({
            let k = insert_point(keys, descending, order, p, m);
            &&& 0 <= k <= m
            &&& forall|i: int|
                0 <= i < k ==> goes_before(keys, descending, #[trigger] order[i] as int, p)
            &&& forall|i: int|
                k <= i < m ==> goes_before(keys, descending, p, #[trigger] order[i] as int)
        }),
    decreases m,
{
    if m > 0 {
        let last = order[m - 1] as int;
        if goes_before(keys, descending, last, p) {
            assert forall|i: int| 0 <= i < m implies goes_before(
                keys,
                descending,
                #[trigger] order[i] as int,
                p,
            ) by {
                if i < m - 1 {
                    assert(goes_before(keys, descending, order[i] as int, order[m - 1] as int));
                    lemma_goes_before_transitive(keys, descending, order[i] as int, last, p);
                }
            }
        } else {
            lemma_insert_point(keys, descending, order, p, m - 1);
            assert(order[m - 1] < p);
            lemma_goes_before_total(keys, descending, last, p);
        }
    }
}

/// The first `n` positions in sorted order.
proof fn order_up_to(keys: Seq<Seq<char>>, descending: bool, n: nat) -> (order: Seq<usize>)
    requires
        n <= keys.len() <= usize::MAX,
    ensures
        order.len() == n,
        ordered_within(keys, descending, order, 0, n as int),
    decreases n,
{
    if n == 0 {
        Seq::empty()
    } else {
        let p = n - 1;
        let before = order_up_to(keys, descending, p as nat);
        lemma_insert_point(keys, descending, before, p, p);
        let k = insert_point(keys, descending, before, p, p);
        let order = before.insert(k, p as usize);
        assert forall|i: int, j: int| 0 <= i < j < order.len() implies goes_before(
            keys,
            descending,
            #[trigger] order[i] as int,
            #[trigger] order[j] as int,
        ) by {
            let a = if i < k {
                i
            } else {
                i - 1
            };
            let b = if j < k {
                j
            } else {
                j - 1
            };
            if i == k {
                assert(order[j] == before[b]);
            } else if j == k {
                assert(order[i] == before[a]);
            } else {
                assert(order[i] == before[a]);
                assert(order[j] == before[b]);
            }
        }
        assert forall|i: int| 0 <= i < order.len() implies 0 <= #[trigger] order[i] < n by {
            if i < k {
                assert(order[i] == before[i]);
            } else if i > k {
                assert(order[i] == before[i - 1]);
            }
        }
        order
    }
}

/// Any keys can be sorted: there is a sorted order, and `sort_order` is the one.
pub proof fn lemma_sort_order(keys: Seq<Seq<char>>, descending: bool)
    requires
        keys.len() <= usize::MAX,
    ensures
        sorted_order(keys, descending, sort_order(keys, descending)),
{
    let order = order_up_to(keys, descending, keys.len());
    lemma_all_positions(keys, descending, order);
}

/// There is one sorted order only.
pub proof fn lemma_sorted_order_unique(
    keys: Seq<Seq<char>>,
    descending: bool,
    a: Seq<usize>,
    b: Seq<usize>,
)
    requires
        sorted_order(keys, descending, a),
        sorted_order(keys, descending, b),
    ensures
        a == b,
{
    assert forall|i: int| 0 <= i < a.len() && (forall|j: int| 0 <= j < i ==> a[j] == b[j]) implies a[i]
        == b[i] by {
        if a[i] != b[i] {
            let x = a[i] as int;
            let y = b[i] as int;
            assert(b.contains(a[i]));
            assert(a.contains(b[i]));
            let bi = choose|j: int| 0 <= j < b.len() && b[j] == a[i];
            let ai = choose|j: int| 0 <= j < a.len() && a[j] == b[i];
            if bi < i {
                assert(a[bi] == a[i]);
                assert(goes_before(keys, descending, a[bi] as int, a[i] as int));
            }
            if ai < i {
                assert(b[ai] == b[i]);
                assert(goes_before(keys, descending, b[ai] as int, b[i] as int));
            }
            assert(goes_before(keys, descending, b[i] as int, b[bi] as int));
            assert(goes_before(keys, descending, a[i] as int, a[ai] as int));
            lemma_goes_before_total(keys, descending, x, y);
        }
    }
    lemma_equal_by_prefixes(a, b, a.len() as int);
    assert(a =~= b);
}

/// Equality of sequences from equality behind equal beginnings.
proof fn lemma_equal_by_prefixes(a: Seq<usize>, b: Seq<usize>, n: int)
    requires
        a.len() == b.len(),
        0 <= n <= a.len(),
        forall|i: int|
            0 <= i < a.len() && (forall|j: int| 0 <= j < i ==> a[j] == b[j]) ==> a[i] == b[i],
    ensures
        forall|i: int| 0 <= i < n ==> a[i] == b[i],
    decreases n,
{
    if n > 0 {
        lemma_equal_by_prefixes(a, b, n - 1);
    }
}

/// Whether `out` holds the texts of `keys`, each once, in dictionary order.
pub open spec fn distinct_sorted(keys: Seq<Seq<char>>, out: Seq<Seq<char>>) -> bool {
    &&& forall|i: int, j: int|
        0 <= i < j < out.len() ==> text_less(#[trigger] out[i], #[trigger] out[j])
    &&& forall|t: Seq<char>| #![auto] out.contains(t) <==> keys.contains(t)
}

/// There are as many texts in the list as there are different keys.
pub proof fn lemma_distinct_sorted_len(keys: Seq<Seq<char>>, out: Seq<Seq<char>>)
    requires
        distinct_sorted(keys, out),
    ensures
        out.len() == keys.to_set().len(),
{
    assert forall|i: int, j: int| 0 <= i < j < out.len() implies out[i] != out[j] by {
        lemma_text_less_irreflexive(out[i]);
        assert(text_less(out[i], out[j]));
    }
    assert(out.no_duplicates());
    out.unique_seq_to_set();
    assert(out.to_set() =~= keys.to_set()) by {
        assert forall|t: Seq<char>| out.to_set().contains(t) <==> keys.to_set().contains(t) by {
            assert(out.contains(t) <==> keys.contains(t));
        }
    }
}

/// There is one such list only.
pub proof fn lemma_distinct_sorted_unique(
    keys: Seq<Seq<char>>,
    a: Seq<Seq<char>>,
    b: Seq<Seq<char>>,
)
    requires
        distinct_sorted(keys, a),
        distinct_sorted(keys, b),
    ensures
        a == b,
{
    assert forall|t: Seq<char>| #![auto] a.contains(t) <==> b.contains(t) by {
        assert(a.contains(t) <==> keys.contains(t));
        assert(b.contains(t) <==> keys.contains(t));
    }
    lemma_ascending_unique(a, b);
}

/// Ascending lists of the same texts are the same.
proof fn lemma_ascending_unique(a: Seq<Seq<char>>, b: Seq<Seq<char>>)
    requires
        forall|i: int, j: int|
            0 <= i < j < a.len() ==> text_less(#[trigger] a[i], #[trigger] a[j]),
        forall|i: int, j: int|
            0 <= i < j < b.len() ==> text_less(#[trigger] b[i], #[trigger] b[j]),
        forall|t: Seq<char>| #![auto] a.contains(t) <==> b.contains(t),
    ensures
        a == b,
    decreases a.len(),
{
    if a.len() == 0 || b.len() == 0 {
        if a.len() > 0 {
            assert(a.contains(a[0]));
        }
        if b.len() > 0 {
            assert(b.contains(b[0]));
        }
        assert(a =~= b);
    } else {
        let x = a.last();
        let y = b.last();
        assert(a.contains(x) && b.contains(y));
        assert(b.contains(x) && a.contains(y));
        let j = choose|j: int| 0 <= j < b.len() && b[j] == x;
        let i = choose|i: int| 0 <= i < a.len() && a[i] == y;
        if x != y {
            assert(text_less(b[j], b[b.len() - 1]));
            assert(text_less(a[i], a[a.len() - 1]));
            lemma_text_less_transitive(x, y, x);
            lemma_text_less_irreflexive(x);
        }
        let c = a.drop_last();
        let d = b.drop_last();
        assert forall|t: Seq<char>| #![auto] c.contains(t) <==> d.contains(t) by {
            lemma_text_less_irreflexive(x);
            if c.contains(t) {
                let k = choose|k: int| 0 <= k < c.len() && c[k] == t;
                assert(text_less(a[k], a[a.len() - 1]));
                assert(a.contains(t));
                let m = choose|m: int| 0 <= m < b.len() && b[m] == t;
                assert(m < d.len());
                assert(d[m] == t);
            }
            if d.contains(t) {
                let k = choose|k: int| 0 <= k < d.len() && d[k] == t;
                assert(text_less(b[k], b[b.len() - 1]));
                assert(b.contains(t));
                let m = choose|m: int| 0 <= m < a.len() && a[m] == t;
                assert(m < c.len());
                assert(c[m] == t);
            }
        }
        lemma_ascending_unique(c, d);
        assert(a =~= c.push(x));
        assert(b =~= d.push(y));
    }
}

/// The different texts among the keys, in dictionary order.
pub fn sorted_distinct(keys: &Vec<Vec<char>>) -> (out: Vec<String>)
    ensures
        distinct_sorted(key_texts(keys@), text::texts(out@)),
{
    let ghost k = key_texts(keys@);
    let order = sort_positions(keys, false);
    let mut out: Vec<String> = Vec::new();
    let mut last: usize = 0;
    let mut i: usize = 0;
    while i < order.len()
        invariant
            k == key_texts(keys@),
            sorted_order(k, false, order@),
            i <= order@.len(),
            i > 0 ==> last == order@[i - 1] && out@.len() > 0 && out@.last()@ == k[last as int],
            i == 0 ==> out@.len() == 0,
            forall|a: int, b: int|
                0 <= a < b < out@.len() ==> text_less(#[trigger] out@[a]@, #[trigger] out@[b]@),
            forall|a: int| 0 <= a < out@.len() ==> k.contains(#[trigger] out@[a]@),
            forall|a: int|
                0 <= a < i ==> text::texts(out@).contains(k[#[trigger] order@[a] as int]),
        decreases order@.len() - i,
    {
        let p: usize = order[i];
        let fresh: bool = i == 0 || chars_before(&keys[last], &keys[p]);
        let ghost before = out@;
        if fresh {
            out.push(text::text_range(&keys[p], 0, keys[p].len()));
            proof {
                assert(keys@[p as int]@.subrange(0, keys@[p as int]@.len() as int)
                    =~= keys@[p as int]@);
                assert(out@.last()@ == k[p as int]);
                assert(k.contains(k[p as int]));
                assert forall|a: int, b: int| 0 <= a < b < out@.len() implies text_less(
                    #[trigger] out@[a]@,
                    #[trigger] out@[b]@,
                ) by {
                    if b == out@.len() - 1 && a < before.len() - 1 {
                        assert(text_less(before[a]@, before.last()@));
                        lemma_text_less_transitive(before[a]@, before.last()@, k[p as int]);
                    }
                }
            }
        } else {
            proof {
                assert(goes_before(k, false, order@[i - 1] as int, order@[i as int] as int));
                assert(k[last as int] == k[p as int]);
            }
        }
        proof {
            assert forall|a: int| 0 <= a < i + 1 implies text::texts(out@).contains(
                k[#[trigger] order@[a] as int],
            ) by {
                if a == i {
                    assert(text::texts(out@)[out@.len() - 1] == k[p as int]);
                } else {
                    assert(text::texts(before).contains(k[order@[a] as int]));
                    let w = choose|w: int|
                        0 <= w < before.len() && text::texts(before)[w] == k[order@[a] as int];
                    assert(text::texts(out@)[w] == k[order@[a] as int]);
                }
            }
        }
        last = p;
        i = i + 1;
    }
    proof {
        let o = text::texts(out@);
        assert forall|t: Seq<char>| #![auto] o.contains(t) <==> k.contains(t) by {
            if o.contains(t) {
                let a = choose|a: int| 0 <= a < o.len() && o[a] == t;
                assert(k.contains(out@[a]@));
            }
            if k.contains(t) {
                let q = choose|q: int| 0 <= q < k.len() && k[q] == t;
                assert(order@.contains(q as usize));
                let a = choose|a: int| 0 <= a < order@.len() && order@[a] == q as usize;
                assert(o.contains(k[order@[a] as int]));
            }
        }
    }
    out
}

} // verus!
