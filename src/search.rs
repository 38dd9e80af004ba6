//! Floor search: the greatest position whose key does not exceed a query.

use vstd::prelude::*;

verus! {

/// A value that carries the start of an address range, by which a shard is ordered.
pub trait RangeStart {
    spec fn start_spec(&self) -> u32;

    fn start(&self) -> (r: u32)
        ensures
            r == self.start_spec(),
    ;
}

impl RangeStart for u32 {
    open spec fn start_spec(&self) -> u32 {
        *self
    }

    fn start(&self) -> (r: u32) {
        *self
    }
}

/// The range starts of a sequence of entries, in order.
pub open spec fn starts<T: RangeStart>(s: Seq<T>) -> Seq<u32> {
    s.map_values(|x: T| x.start_spec())
}

/// Every key is smaller than every key after it.
pub open spec fn strictly_ascending(s: Seq<u32>) -> bool {
    forall|i: int, j: int| 0 <= i < j < s.len() ==> s[i] < s[j]
}

/// Position `i` holds the range that contains `q`: `s[i] <= q`, and either
/// `i` is the last position or `q < s[i + 1]`.
pub open spec fn is_floor(s: Seq<u32>, q: u32, i: int) -> bool {
    &&& 0 <= i < s.len()
    &&& s[i] <= q
    &&& (i == s.len() - 1 || q < s[i + 1])
}

/// `q` lies below every range of `s` (or `s` has none).
pub open spec fn below_all(s: Seq<u32>, q: u32) -> bool {
    s.len() == 0 || q < s[0]
}

/// The boundary that follows position `i`: the next key when there is one,
/// else the boundary already known.
pub open spec fn next_boundary(s: Seq<u32>, i: int, current: u32) -> u32 {
    if i + 1 < s.len() {
        s[i + 1]
    } else {
        current
    }
}

/// Binary search for the position whose range contains `q`.
///
/// Each round moves `lo` up or `hi` down, so the interval `[lo, hi)` shrinks
/// strictly and the search ends for every list and every query, in
/// `O(log n)` rounds. Its answer is the containing position when the list is
/// strictly ascending.
pub fn floor_search<T: RangeStart>(list: &Vec<T>, q: u32) -> (r: Option<usize>)
    ensures
        r matches Some(i) ==> i < list.len(),
        strictly_ascending(starts(list@)) ==> (r is None <==> below_all(starts(list@), q)),
        strictly_ascending(starts(list@)) ==> (r matches Some(i) ==> is_floor(
            starts(list@),
            q,
            i as int,
        )),
{
    let ghost s = starts(list@);
    let ghost sorted = strictly_ascending(s);
    let mut lo: usize = 0;
    let mut hi: usize = list.len();
    while lo < hi
        invariant
            s == starts(list@),
            sorted == strictly_ascending(s),
            s.len() == list@.len(),
            0 <= lo <= hi <= s.len(),
            sorted ==> forall|j: int| 0 <= j < lo ==> s[j] <= q,
            sorted ==> forall|j: int| hi <= j < s.len() ==> q < s[j],
        decreases hi - lo,
    {
        let mid: usize = lo + (hi - lo) / 2;
        let k = list[mid].start();
        assert(k == s[mid as int]);
        if k <= q {
            lo = mid + 1;
        } else {
            hi = mid;
        }
    }
    if lo == 0 {
        None
    } else {
        Some(lo - 1)
    }
}

/// A list whose every key is smaller than the next is strictly ascending.
pub proof fn lemma_adjacent_ascending(s: Seq<u32>)
    requires
        forall|i: int| 0 <= i < s.len() - 1 ==> #[trigger] s[i] < s[i + 1],
    ensures
        strictly_ascending(s),
{
    assert forall|i: int, j: int| 0 <= i < j < s.len() implies s[i] < s[j] by {
        lemma_adjacent_chain(s, i, j);
    }
}

proof fn lemma_adjacent_chain(s: Seq<u32>, i: int, j: int)
    requires
        forall|k: int| 0 <= k < s.len() - 1 ==> #[trigger] s[k] < s[k + 1],
        0 <= i < j < s.len(),
    ensures
        s[i] < s[j],
    decreases j - i,
{
    if j - i > 1 {
        lemma_adjacent_chain(s, i, j - 1);
        assert(s[j - 1] < s[j]);
    } else {
        assert(s[i] < s[i + 1]);
    }
}

/// Floor search over a shard of keys: the position whose range contains
/// `item`, or `-1` when `item` lies below the first key. It ends on every
/// list; its answer is exact on a strictly ascending one.
pub fn file_binary_search(list: &Vec<u32>, item: u32) -> (r: isize)
    requires
        list.len() <= isize::MAX,
    ensures
        -1 <= r < list.len(),
        strictly_ascending(list@) ==> (r == -1 <==> below_all(list@, item)),
        strictly_ascending(list@) ==> (r != -1 ==> is_floor(list@, item, r as int)),
{
    assert(starts(list@) =~= list@);
    match floor_search(list, item) {
        Some(i) => i as isize,
        None => -1,
    }
}

/// The end of the range that starts at position `index`: the key that
/// follows it, or `current_next_ip` when no key follows it (at the last
/// position or past the end).
pub fn get_next_ip_from_u32(list: &Vec<u32>, index: isize, current_next_ip: u32) -> (r: u32)
    requires
        0 <= index,
    ensures
        r == next_boundary(list@, index as int, current_next_ip),
{
    let i = index as usize;
    if i + 1 < list.len() {
        list[i + 1]
    } else {
        current_next_ip
    }
}

} // verus!
