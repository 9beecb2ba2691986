//! Searching byte strings held in any indexed container.
use vstd::prelude::*;
use crate::datastructures::{Array, Queue, Vector};

verus! {

/// `target` occurs in `buf` starting at position `i`.
pub open spec fn occurs_at(buf: Seq<u8>, target: Seq<u8>, i: int) -> bool {
    &&& 0 <= i
    &&& i + target.len() <= buf.len()
    &&& buf.subrange(i, i + target.len()) == target
}

/// The result of searching `target` in `buf`: the first start position
/// below `buf.len() - target.len()` at which it occurs. An empty target,
/// an empty buffer, a target longer than the buffer, and an occurrence
/// only at the very end all give `None`.
pub open spec fn search_result(buf: Seq<u8>, target: Seq<u8>, r: Option<usize>) -> bool {
    match r {
        Some(i) => {
            &&& target.len() > 0
            &&& buf.len() > 0
            &&& i < buf.len() - target.len()
            &&& occurs_at(buf, target, i as int)
            &&& forall|j: int| 0 <= j < i ==> !occurs_at(buf, target, j)
        },
        None => {
            ||| target.len() == 0
            ||| buf.len() == 0
            ||| buf.len() < target.len()
            ||| forall|j: int| 0 <= j < buf.len() - target.len() ==> !occurs_at(buf, target, j)
        },
    }
}

/// Concatenates two byte strings into a new vector.
pub fn concat(first: &[u8], second: &[u8]) -> (r: Vector<u8>)
    ensures
        r@ == first@ + second@,
{
    let mut temp = Vector::new();
    let mut idx: usize = 0;
    while idx < first.len()
        invariant
            idx <= first@.len(),
            temp@ == first@.take(idx as int),
        decreases first@.len() - idx,
    {
        temp.enqueue(first[idx]);
        idx = idx + 1;
        assert(temp@ =~= first@.take(idx as int));
    }
    let mut idx: usize = 0;
    while idx < second.len()
        invariant
            idx <= second@.len(),
            temp@ == first@ + second@.take(idx as int),
        decreases second@.len() - idx,
    {
        temp.enqueue(second[idx]);
        idx = idx + 1;
        assert(temp@ =~= first@ + second@.take(idx as int));
    }
    assert(first@.take(first@.len() as int) =~= first@);
    assert(second@.take(second@.len() as int) =~= second@);
    temp
}

/// Whether `target` occurs at `i`, comparing byte by byte.
fn matches_here<A: Array<u8>, B: Array<u8>>(buffer: &A, target: &B, i: usize) -> (found: bool)
    requires
        buffer.well_formed(),
        target.well_formed(),
        i + target.items().len() <= buffer.items().len(),
    ensures
        found == occurs_at(buffer.items(), target.items(), i as int),
{
    let m = target.size();
    let n = buffer.size();
    let mut r: usize = 0;
    while r < m
        invariant
            buffer.well_formed(),
            target.well_formed(),
            n == buffer.items().len(),
            m == target.items().len(),
            r <= m,
            i + m <= buffer.items().len(),
            forall|k: int| 0 <= k < r ==> buffer.items()[i + k] == target.items()[k],
        decreases m - r,
    {
        if buffer.get(i + r) != target.get(r) {
            assert(buffer.items().subrange(i as int, i + m)[r as int] != target.items()[r as int]);
            return false;
        }
        r = r + 1;
    }
    assert(buffer.items().subrange(i as int, i + m) =~= target.items());
    true
}

/// The first position at which `target` occurs in `buffer`, searching the
/// start positions below `buffer.size() - target.size()`.
pub fn index_of<A: Array<u8>, B: Array<u8>>(buffer: &A, target: &B) -> (r: Option<usize>)
    requires
        buffer.well_formed(),
        target.well_formed(),
    ensures
        search_result(buffer.items(), target.items(), r),
{
    let n = buffer.size();
    let m = target.size();
    if m == 0 {
        return None;
    } else if n == 0 {
        return None;
    } else if n < m {
        return None;
    }
    let mut i: usize = 0;
    while i < n - m
        invariant
            buffer.well_formed(),
            target.well_formed(),
            n == buffer.items().len(),
            m == target.items().len(),
            0 < m <= n,
            i <= n - m,
            forall|j: int| 0 <= j < i ==> !occurs_at(buffer.items(), target.items(), j),
        decreases n - m - i,
    {
        if buffer.get(i) == target.get(0) {
            if matches_here(buffer, target, i) {
                return Some(i);
            }
        } else {
            assert(buffer.items().subrange(i as int, i + m)[0] != target.items()[0]);
        }
        i = i + 1;
    }
    None
}

/// Whether `target` occurs in `buffer`, in the sense of `index_of`.
pub fn contains<A: Array<u8>, B: Array<u8>>(buffer: &A, target: &B) -> (r: bool)
    requires
        buffer.well_formed(),
        target.well_formed(),
    ensures
        r <==> exists|i: usize| search_result(buffer.items(), target.items(), Some(i)),
{
    let found = index_of(buffer, target);
    match found {
        Some(i) => true,
        None => {
            assert forall|i: usize| !search_result(buffer.items(), target.items(), Some(i)) by {
                if search_result(buffer.items(), target.items(), Some(i)) {
                    assert(!occurs_at(buffer.items(), target.items(), i as int));
                }
            }
            false
        },
    }
}

/// `hay` contains `needle`; an empty needle is found in anything.
pub open spec fn bytes_contain(hay: Seq<u8>, needle: Seq<u8>) -> bool {
    needle.len() == 0 || exists|i: int| occurs_at(hay, needle, i)
}

/// Whether `hay` contains `needle`.
pub fn contains_bytes(hay: &[u8], needle: &[u8]) -> (r: bool)
    ensures
        r == bytes_contain(hay@, needle@),
{
    let n = hay.len();
    let m = needle.len();
    if m == 0 {
        return true;
    }
    if m > n {
        assert forall|i: int| !occurs_at(hay@, needle@, i) by {}
        return false;
    }
    let mut i: usize = 0;
    while i <= n - m
        invariant
            n == hay@.len(),
            m == needle@.len(),
            0 < m <= n,
            i <= n - m + 1,
            forall|j: int| 0 <= j < i ==> !occurs_at(hay@, needle@, j),
        decreases n - m + 1 - i,
    {
        let mut k: usize = 0;
        let mut same = true;
        while k < m
            invariant
                n == hay@.len(),
                m == needle@.len(),
                i + m <= n,
                k <= m,
                same == (forall|t: int| 0 <= t < k ==> hay@[i + t] == needle@[t]),
            decreases m - k,
        {
            if hay[i + k] != needle[k] {
                same = false;
            }
            k = k + 1;
        }
        if same {
            assert(hay@.subrange(i as int, i + m) =~= needle@);
            assert(occurs_at(hay@, needle@, i as int));
            return true;
        }
        assert(!occurs_at(hay@, needle@, i as int)) by {
            if occurs_at(hay@, needle@, i as int) {
                assert forall|t: int| 0 <= t < m implies hay@[i + t] == needle@[t] by {
                    assert(hay@.subrange(i as int, i + m)[t] == needle@[t]);
                }
            }
        }
        i = i + 1;
    }
    assert forall|j: int| !occurs_at(hay@, needle@, j) by {
        if 0 <= j < i {
        } else if j >= i {
            assert(j + m > n);
        }
    }
    false
}

} // verus!
