//! Rearrangements: what it means that a sequence holds the same things in
//! another order, and the steps that keep it so.

use vstd::prelude::*;

verus! {

/// `value` stands somewhere in `order` from `start` up to `end`.
pub open spec fn in_range<T>(order: Seq<T>, start: int, end: int, value: T) -> bool {
    exists|i: int| start <= i < end && #[trigger] order[i] == value
}

/// `after` holds what `before` holds, moved about only between `start` and
/// `end`.
pub open spec fn rearranged<T>(before: Seq<T>, after: Seq<T>, start: int, end: int) -> bool {
    &&& after.len() == before.len()
    &&& forall|i: int| 0 <= i < before.len() && !(start <= i < end) ==> after[i] == before[i]
    &&& forall|value: T|
        #![trigger in_range(after, start, end, value)]
        #![trigger in_range(before, start, end, value)]
        in_range(after, start, end, value) <==> in_range(before, start, end, value)
}

/// Two sequences that agree from `start` up to `end` hold the same things
/// there.
pub proof fn lemma_in_range_agree<T>(a: Seq<T>, b: Seq<T>, start: int, end: int)
    requires
        0 <= start <= end <= a.len(),
        end <= b.len(),
        forall|i: int| start <= i < end ==> a[i] == b[i],
    ensures
        forall|value: T|
            #![trigger in_range(a, start, end, value)]
            #![trigger in_range(b, start, end, value)]
            in_range(a, start, end, value) <==> in_range(b, start, end, value),
{
    assert forall|value: T| in_range(a, start, end, value) implies in_range(
        b,
        start,
        end,
        value,
    ) by {
        let i = choose|i: int| start <= i < end && a[i] == value;
        assert(b[i] == value);
    }
    assert forall|value: T| in_range(b, start, end, value) implies in_range(
        a,
        start,
        end,
        value,
    ) by {
        let i = choose|i: int| start <= i < end && b[i] == value;
        assert(a[i] == value);
    }
}

/// A stretch made longer by one place holds what it held and what stands at
/// the new place.
pub proof fn lemma_in_range_grow<T>(order: Seq<T>, start: int, end: int, longer: int)
    requires
        0 <= start <= end < order.len(),
        longer == end + 1,
    ensures
        forall|value: T|
            #![trigger in_range(order, start, longer, value)]
            #![trigger in_range(order, start, end, value)]
            in_range(order, start, longer, value) <==> in_range(order, start, end, value) || value
                == order[end],
{
    assert forall|value: T| in_range(order, start, longer, value) implies in_range(
        order,
        start,
        end,
        value,
    ) || value == order[end] by {
        let i = choose|i: int| start <= i < longer && order[i] == value;
        if i < end {
            assert(order[i] == value);
        }
    }
    assert forall|value: T|
        in_range(order, start, end, value) || value == order[end] implies in_range(
        order,
        start,
        longer,
        value,
    ) by {
        if value == order[end] {
            assert(order[end] == value);
        } else {
            let i = choose|i: int| start <= i < end && order[i] == value;
            assert(order[i] == value);
        }
    }
}

/// What a stretch holds, every stretch around it holds too.
pub proof fn lemma_in_range_widen<T>(order: Seq<T>, start: int, end: int, low: int, high: int)
    requires
        low <= start <= end <= high,
    ensures
        forall|value: T|
            #![trigger in_range(order, start, end, value)]
            #![trigger in_range(order, low, high, value)]
            in_range(order, start, end, value) ==> in_range(order, low, high, value),
{
    assert forall|value: T| in_range(order, start, end, value) implies in_range(
        order,
        low,
        high,
        value,
    ) by {
        let i = choose|i: int| start <= i < end && order[i] == value;
        assert(order[i] == value);
    }
}

/// A stretch holds what its two parts hold.
pub proof fn lemma_in_range_parts<T>(order: Seq<T>, start: int, mid: int, end: int)
    requires
        start <= mid <= end,
    ensures
        forall|value: T|
            #![trigger in_range(order, start, end, value)]
            #![trigger in_range(order, start, mid, value)]
            #![trigger in_range(order, mid, end, value)]
            in_range(order, start, end, value) <==> in_range(order, start, mid, value) || in_range(
                order,
                mid,
                end,
                value,
            ),
{
    assert forall|value: T| in_range(order, start, end, value) implies in_range(
        order,
        start,
        mid,
        value,
    ) || in_range(order, mid, end, value) by {
        let i = choose|i: int| start <= i < end && order[i] == value;
        assert(order[i] == value);
    }
    lemma_in_range_widen(order, start, mid, start, end);
    lemma_in_range_widen(order, mid, end, start, end);
}

/// A stretch that was copied holds what it was copied from.
pub proof fn lemma_in_range_shift<T>(a: Seq<T>, b: Seq<T>, start: int, end: int, count: int)
    requires
        0 <= start,
        0 <= count <= b.len(),
        end == start + count,
        end <= a.len(),
        forall|k: int| 0 <= k < count ==> a[start + k] == b[k],
    ensures
        forall|value: T|
            #![trigger in_range(a, start, end, value)]
            #![trigger in_range(b, 0, count, value)]
            in_range(a, start, end, value) <==> in_range(b, 0, count, value),
{
    assert forall|value: T| in_range(a, start, end, value) implies in_range(
        b,
        0,
        count,
        value,
    ) by {
        let i = choose|i: int| start <= i < end && a[i] == value;
        assert(a[start + (i - start)] == b[i - start]);
        assert(b[i - start] == value);
    }
    assert forall|value: T| in_range(b, 0, count, value) implies in_range(
        a,
        start,
        end,
        value,
    ) by {
        let k = choose|k: int| 0 <= k < count && b[k] == value;
        assert(a[start + k] == value);
    }
}

/// Two entries that change places between `start` and `end` rearrange the
/// sequence there.
pub proof fn lemma_swap_rearranges<T>(order: Seq<T>, a: int, b: int, start: int, end: int)
    requires
        0 <= start <= a < end <= order.len(),
        start <= b < end,
    ensures
        rearranged(order, order.update(a, order[b]).update(b, order[a]), start, end),
{
    let swapped = order.update(a, order[b]).update(b, order[a]);
    assert forall|value: T| in_range(swapped, start, end, value) implies in_range(
        order,
        start,
        end,
        value,
    ) by {
        let i = choose|i: int| start <= i < end && swapped[i] == value;
        let w = if i == a {
            b
        } else if i == b {
            a
        } else {
            i
        };
        assert(order[w] == value);
    }
    assert forall|value: T| in_range(order, start, end, value) implies in_range(
        swapped,
        start,
        end,
        value,
    ) by {
        let i = choose|i: int| start <= i < end && order[i] == value;
        let w = if i == a {
            b
        } else if i == b {
            a
        } else {
            i
        };
        assert(swapped[w] == value);
    }
}

/// A rearrangement of a rearrangement is a rearrangement.
pub proof fn lemma_rearranged_chain<T>(a: Seq<T>, b: Seq<T>, c: Seq<T>, start: int, end: int)
    requires
        rearranged(a, b, start, end),
        rearranged(b, c, start, end),
    ensures
        rearranged(a, c, start, end),
{
}

/// What is rearranged within a stretch is rearranged within every stretch
/// around it.
pub proof fn lemma_rearranged_widen<T>(
    a: Seq<T>,
    b: Seq<T>,
    start: int,
    end: int,
    low: int,
    high: int,
)
    requires
        0 <= low <= start <= end <= high <= a.len(),
        rearranged(a, b, start, end),
    ensures
        rearranged(a, b, low, high),
{
    lemma_in_range_parts(a, low, start, high);
    lemma_in_range_parts(a, start, end, high);
    lemma_in_range_parts(b, low, start, high);
    lemma_in_range_parts(b, start, end, high);
    lemma_in_range_agree(a, b, low, start);
    lemma_in_range_agree(a, b, end, high);
}

} // verus!
