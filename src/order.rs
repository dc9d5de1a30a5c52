//! Back-to-front draw ordering of pipelines by distance to the camera.
use vstd::prelude::*;

verus! {

/// Order key of an `f32`, read from its bit pattern as `f32::to_bits` gives it.
///
/// Comparing keys as integers orders the floats as `f32::total_cmp` does:
/// non-negative floats by their bits, negative ones in reverse of their
/// magnitude bits, and every negative value below every non-negative one.
pub open spec fn dist_key_spec(bits: u32) -> int {
    if bits < 0x8000_0000u32 {
        bits as int
    } else {
        -1 - (bits as int - 0x8000_0000)
    }
}

/// Integer key that orders squared distances (given as `f32` bits) in the
/// total order of `f32`.
pub fn dist_key(bits: u32) -> (r: i32)
    ensures
        r as int == dist_key_spec(bits),
{
    if bits < 0x8000_0000u32 {
        bits as i32
    } else {
        let low: u32 = bits - 0x8000_0000u32;
        -1i32 - (low as i32)
    }
}

/// `a` is drawn before `b`: pipelines without an owning object come first
/// (farthest), then objects by descending distance key, ties by position.
pub open spec fn precedes(keys: Seq<Option<i32>>, a: int, b: int) -> bool {
    match (keys[a], keys[b]) {
        (None, Some(_)) => true,
        (Some(_), None) => false,
        (None, None) => a < b,
        (Some(x), Some(y)) => x > y || (x == y && a < b),
    }
}

/// `order` lists pipeline positions strictly in draw order.
pub open spec fn sorted_by_precedes(keys: Seq<Option<i32>>, order: Seq<usize>) -> bool {
    forall|i: int, j: int|
        0 <= i < j < order.len() ==> #[trigger] precedes(keys, order[i] as int, order[j] as int)
}

/// `order` is a permutation of `0..keys.len()` sorted into draw order.
pub open spec fn is_draw_order(keys: Seq<Option<i32>>, order: Seq<usize>) -> bool {
    &&& order.len() == keys.len()
    &&& forall|i: int| 0 <= i < order.len() ==> #[trigger] order[i] < keys.len()
    &&& forall|k: int| 0 <= k < keys.len() ==> #[trigger] order.contains(k as usize)
    &&& sorted_by_precedes(keys, order)
}

proof fn lemma_precedes_transitive(keys: Seq<Option<i32>>, a: int, b: int, c: int)
    requires
        0 <= a < keys.len(),
        0 <= b < keys.len(),
        0 <= c < keys.len(),
        precedes(keys, a, b),
        precedes(keys, b, c),
    ensures
        precedes(keys, a, c),
{
}

proof fn lemma_precedes_asymmetric(keys: Seq<Option<i32>>, a: int, b: int)
    requires
        0 <= a < keys.len(),
        0 <= b < keys.len(),
        precedes(keys, a, b),
    ensures
        !precedes(keys, b, a),
        a != b,
{
}

/// Computes the draw order of pipelines from their keys: `None` for a
/// pipeline without an owning object, else the object's distance key.
pub fn draw_order(keys: &Vec<Option<i32>>) -> (r: Vec<usize>)
    ensures
        is_draw_order(keys@, r@),
{
    let n = keys.len();
    let mut order: Vec<usize> = Vec::new();
    let mut i: usize = 0;
    while i < n
        invariant
            n == keys.len(),
            i <= n,
            order.len() == i,
            forall|j: int| 0 <= j < order.len() ==> #[trigger] order@[j] < i,
            forall|k: int| 0 <= k < i ==> #[trigger] order@.contains(k as usize),
            sorted_by_precedes(keys@, order@),
        decreases n - i,
    {
        let ki = keys[i];
        let mut p: usize = 0;
        while p < order.len() && !before(keys, i, order[p])
            invariant
                n == keys.len(),
                i < n,
                p <= order.len(),
                order.len() == i,
                forall|j: int| 0 <= j < order.len() ==> #[trigger] order@[j] < i,
                forall|j: int| 0 <= j < p ==> #[trigger] precedes(keys@, order@[j] as int, i as int),
            decreases order.len() - p,
        {
            proof {
                let o = order@[p as int] as int;
                if !precedes(keys@, o, i as int) {
                    lemma_total(keys@, o, i as int);
                }
            }
            p = p + 1;
        }
        proof {
            if p < order.len() {
                assert forall|j: int| p <= j < order.len() implies #[trigger] precedes(keys@, i as int, order@[j] as int) by {
                    if j > p {
                        assert(precedes(keys@, order@[p as int] as int, order@[j] as int));
                        lemma_precedes_transitive(keys@, i as int, order@[p as int] as int, order@[j] as int);
                    }
                }
            }
        }
        let ghost old_order = order@;
        order.insert(p, i);
        proof {
            assert(order@ == old_order.insert(p as int, i));
            assert forall|a: int, b: int| 0 <= a < b < order@.len() implies #[trigger] precedes(keys@, order@[a] as int, order@[b] as int) by {
                if a < p as int && b < p as int {
                    assert(precedes(keys@, old_order[a] as int, old_order[b] as int));
                } else if a < p as int && b == p as int {
                } else if a < p as int {
                    assert(precedes(keys@, old_order[a] as int, old_order[b - 1] as int));
                } else if a == p as int {
                } else {
                    assert(precedes(keys@, old_order[a - 1] as int, old_order[b - 1] as int));
                }
            }
            assert forall|k: int| 0 <= k < i + 1 implies #[trigger] order@.contains(k as usize) by {
                if k == i as int {
                    assert(order@[p as int] == i);
                } else {
                    assert(old_order.contains(k as usize));
                    let w = choose|w: int| 0 <= w < old_order.len() && old_order[w] == k as usize;
                    if w < p as int {
                        assert(order@[w] == k as usize);
                    } else {
                        assert(order@[w + 1] == k as usize);
                    }
                }
            }
        }
        i = i + 1;
    }
    order
}


/// The draw order is a function of the keys alone: two orders that are both
/// sorted permutations of the same keys are equal, so sorting an unchanged
/// set of distances again yields the same permutation.
pub proof fn lemma_draw_order_unique(keys: Seq<Option<i32>>, r1: Seq<usize>, r2: Seq<usize>)
    requires
        is_draw_order(keys, r1),
        is_draw_order(keys, r2),
    ensures
        r1 == r2,
{
    assert forall|x: usize| r1.contains(x) <==> r2.contains(x) by {
        if r1.contains(x) {
            let i = choose|i: int| 0 <= i < r1.len() && r1[i] == x;
            assert(r2.contains((x as int) as usize));
        }
        if r2.contains(x) {
            let i = choose|i: int| 0 <= i < r2.len() && r2[i] == x;
            assert(r1.contains((x as int) as usize));
        }
    }
    lemma_sorted_same_elements_equal(keys, r1, r2);
}

proof fn lemma_sorted_same_elements_equal(keys: Seq<Option<i32>>, r1: Seq<usize>, r2: Seq<usize>)
    requires
        forall|i: int| 0 <= i < r1.len() ==> #[trigger] r1[i] < keys.len(),
        forall|i: int| 0 <= i < r2.len() ==> #[trigger] r2[i] < keys.len(),
        sorted_by_precedes(keys, r1),
        sorted_by_precedes(keys, r2),
        forall|x: usize| r1.contains(x) <==> r2.contains(x),
    ensures
        r1 == r2,
    decreases r1.len(),
{
    if r1.len() == 0 {
        if r2.len() > 0 {
            assert(r2.contains(r2[0]));
        }
        assert(r1 =~= r2);
    } else {
        assert(r1.contains(r1[0]));
        assert(r2.len() > 0);
        assert(r2.contains(r2[0]));
        let h = r1[0];
        if r2[0] != h {
            let j = choose|j: int| 0 <= j < r2.len() && r2[j] == h;
            let i = choose|i: int| 0 <= i < r1.len() && r1[i] == r2[0];
            assert(j > 0);
            assert(i > 0);
            assert(precedes(keys, r2[0] as int, r2[j] as int));
            assert(precedes(keys, r1[0] as int, r1[i] as int));
            lemma_precedes_asymmetric(keys, r1[0] as int, r2[0] as int);
        }
        let t1 = r1.drop_first();
        let t2 = r2.drop_first();
        assert forall|a: int, b: int| 0 <= a < b < t1.len() implies #[trigger] precedes(keys, t1[a] as int, t1[b] as int) by {
            assert(precedes(keys, r1[a + 1] as int, r1[b + 1] as int));
        }
        assert forall|a: int, b: int| 0 <= a < b < t2.len() implies #[trigger] precedes(keys, t2[a] as int, t2[b] as int) by {
            assert(precedes(keys, r2[a + 1] as int, r2[b + 1] as int));
        }
        assert forall|x: usize| t1.contains(x) implies t2.contains(x) by {
            let a = choose|a: int| 0 <= a < t1.len() && t1[a] == x;
            assert(precedes(keys, r1[0] as int, r1[a + 1] as int));
            lemma_precedes_asymmetric(keys, r1[0] as int, r1[a + 1] as int);
            assert(r1.contains(x));
            let b = choose|b: int| 0 <= b < r2.len() && r2[b] == x;
            assert(b != 0);
            assert(t2[b - 1] == x);
        }
        assert forall|x: usize| t2.contains(x) implies t1.contains(x) by {
            let a = choose|a: int| 0 <= a < t2.len() && t2[a] == x;
            assert(precedes(keys, r2[0] as int, r2[a + 1] as int));
            lemma_precedes_asymmetric(keys, r2[0] as int, r2[a + 1] as int);
            assert(r2.contains(x));
            let b = choose|b: int| 0 <= b < r1.len() && r1[b] == x;
            assert(b != 0);
            assert(t1[b - 1] == x);
        }
        assert forall|i: int| 0 <= i < t1.len() implies #[trigger] t1[i] < keys.len() by {
            assert(r1[i + 1] < keys.len());
        }
        assert forall|i: int| 0 <= i < t2.len() implies #[trigger] t2[i] < keys.len() by {
            assert(r2[i + 1] < keys.len());
        }
        lemma_sorted_same_elements_equal(keys, t1, t2);
        assert forall|k: int| 0 <= k < r1.len() implies r1[k] == r2[k] by {
            if k > 0 {
                assert(r1[k] == t1[k - 1]);
                assert(r2[k] == t2[k - 1]);
            }
        }
        assert(r1 =~= r2);
    }
}

proof fn lemma_total(keys: Seq<Option<i32>>, a: int, b: int)
    requires
        0 <= a < keys.len(),
        0 <= b < keys.len(),
        a != b,
        !precedes(keys, a, b),
    ensures
        precedes(keys, b, a),
{
}

fn before(keys: &Vec<Option<i32>>, a: usize, b: usize) -> (r: bool)
    requires
        a < keys.len(),
        b < keys.len(),
    ensures
        r == precedes(keys@, a as int, b as int),
{
    match (keys[a], keys[b]) {
        (None, Some(_)) => true,
        (Some(_), None) => false,
        (None, None) => a < b,
        (Some(x), Some(y)) => x > y || (x == y && a < b),
    }
}

} // verus!
