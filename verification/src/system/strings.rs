//! Byte strings held in a `Vector<u8>`: searching, splitting, equality and
//! ordering.
use vstd::prelude::*;
use core::cmp::Ordering;
use crate::datastructures::{Queue, Stack, Vector};
use crate::strings::search_result;

verus! {

/// The pieces and the piece in progress after splitting `s` at `sep`,
/// reading left to right: each separator closes the piece in progress
/// (even an empty one).
pub open spec fn split_state(s: Seq<u8>, sep: u8) -> (Seq<Seq<u8>>, Seq<u8>)
    decreases s.len(),
{
    if s.len() == 0 {
        (Seq::empty(), Seq::empty())
    } else {
        let (parts, cur) = split_state(s.drop_last(), sep);
        if s.last() == sep {
            (parts.push(cur), Seq::empty())
        } else {
            (parts, cur.push(s.last()))
        }
    }
}

/// The pieces of `s` between separators; a trailing non-empty piece is
/// kept, a trailing empty one is not.
pub open spec fn split_spec(s: Seq<u8>, sep: u8) -> Seq<Seq<u8>> {
    let (parts, cur) = split_state(s, sep);
    if cur.len() > 0 {
        parts.push(cur)
    } else {
        parts
    }
}

/// Byte-wise comparison: the first differing byte decides; when one string
/// is a prefix of the other the longer one is greater, and two equal
/// strings compare as `Less`.
pub open spec fn compare_bytes(a: Seq<u8>, b: Seq<u8>) -> Option<Ordering>
    decreases a.len(),
{
    if a.len() == 0 || b.len() == 0 {
        if a.len() > b.len() {
            Some(Ordering::Greater)
        } else {
            Some(Ordering::Less)
        }
    } else if a[0] == b[0] {
        compare_bytes(a.drop_first(), b.drop_first())
    } else if a[0] < b[0] {
        Some(Ordering::Less)
    } else {
        Some(Ordering::Greater)
    }
}

/// The pieces one after another, each followed by `sep`.
pub open spec fn join_pieces(pieces: Seq<Seq<u8>>, sep: u8) -> Seq<u8>
    decreases pieces.len(),
{
    if pieces.len() == 0 {
        Seq::empty()
    } else {
        join_pieces(pieces.drop_last(), sep) + pieces.last().push(sep)
    }
}

proof fn lemma_split_state(s: Seq<u8>, sep: u8)
    ensures
        join_pieces(split_state(s, sep).0, sep) + split_state(s, sep).1 == s,
        !split_state(s, sep).1.contains(sep),
        forall|i: int| 0 <= i < split_state(s, sep).0.len() ==> !(#[trigger] split_state(s, sep).0[i]).contains(sep),
        split_state(s, sep).1.len() == 0 ==> s.len() == 0 || s.last() == sep,
    decreases s.len(),
{
    if s.len() > 0 {
        lemma_split_state(s.drop_last(), sep);
        let (p, c) = split_state(s.drop_last(), sep);
        assert(s =~= s.drop_last().push(s.last()));
        assert(join_pieces(p, sep) + c == s.drop_last());
        if s.last() == sep {
            assert(p.push(c).drop_last() =~= p);
            assert(p.push(c).last() == c);
            assert(join_pieces(p.push(c), sep) == join_pieces(p, sep) + c.push(sep));
            assert((join_pieces(p, sep) + c).push(sep) =~= join_pieces(p, sep) + c.push(sep));
            assert(join_pieces(p.push(c), sep) + Seq::<u8>::empty() =~= s);
            assert(!Seq::<u8>::empty().contains(sep));
        } else {
            assert((join_pieces(p, sep) + c).push(s.last()) =~= join_pieces(p, sep) + c.push(s.last()));
            assert(join_pieces(p, sep) + c.push(s.last()) =~= s);
            assert forall|k: int| 0 <= k < c.push(s.last()).len() implies c.push(s.last())[k] != sep by {
                if k < c.len() {
                    assert(c[k] != sep);
                }
            }
        }
    } else {
        assert(join_pieces(Seq::<Seq<u8>>::empty(), sep) + Seq::<u8>::empty() =~= s);
    }
}

/// Splitting loses nothing and finds every separator: no piece holds the
/// separator, and the pieces, each followed by the separator, give back
/// the string (with one separator added when it did not end with one).
pub proof fn lemma_split_rejoins(s: Seq<u8>, sep: u8)
    ensures
        forall|i: int| 0 <= i < split_spec(s, sep).len() ==> !(#[trigger] split_spec(s, sep)[i]).contains(sep),
        join_pieces(split_spec(s, sep), sep) == if s.len() == 0 || s.last() == sep { s } else { s.push(sep) },
{
    lemma_split_state(s, sep);
    let (p, c) = split_state(s, sep);
    if c.len() > 0 {
        assert(p.push(c).drop_last() =~= p);
        assert(s.last() == c.last());
        assert(join_pieces(p.push(c), sep) =~= s.push(sep));
    } else {
        assert(join_pieces(p, sep) + c =~= join_pieces(p, sep));
    }
}

/// Byte strings are ordered by their first differing byte: when `i` is
/// the first position below both lengths where `a` and `b` differ, `a`
/// is less than `b` exactly when its byte there is smaller.
pub proof fn lemma_compare_first_difference(a: Seq<u8>, b: Seq<u8>, i: int)
    requires
        0 <= i < a.len(),
        i < b.len(),
        a[i] != b[i],
        forall|j: int| 0 <= j < i ==> a[j] == b[j],
    ensures
        compare_bytes(a, b) == if a[i] < b[i] { Some(Ordering::Less) } else { Some(Ordering::Greater) },
    decreases i,
{
    if i > 0 {
        assert(a[0] == b[0]);
        lemma_compare_first_difference(a.drop_first(), b.drop_first(), i - 1);
    }
}

/// When one string is a prefix of the other, the longer is greater, and
/// otherwise (the two are equal) the result is `Less`.
pub proof fn lemma_compare_common_prefix(a: Seq<u8>, b: Seq<u8>)
    requires
        forall|j: int| 0 <= j < a.len() && j < b.len() ==> a[j] == b[j],
    ensures
        compare_bytes(a, b) == if a.len() > b.len() { Some(Ordering::Greater) } else { Some(Ordering::Less) },
    decreases a.len(),
{
    if a.len() > 0 && b.len() > 0 {
        assert(a[0] == b[0]);
        assert forall|j: int| 0 <= j < a.drop_first().len() && j < b.drop_first().len() implies
            a.drop_first()[j] == b.drop_first()[j] by {
            assert(a[j + 1] == b[j + 1]);
        }
        lemma_compare_common_prefix(a.drop_first(), b.drop_first());
    }
}

/// The bytes of `s` from position `i` on.
pub open spec fn suffix(s: Seq<u8>, i: usize) -> Seq<u8> {
    s.skip(i as int)
}

proof fn lemma_suffix_step(s: Seq<u8>, i: usize)
    requires
        i <= s.len(),
        s.len() <= usize::MAX,
    ensures
        i < s.len() ==> suffix(s, i).len() > 0 && suffix(s, i)[0] == s[i as int],
        i < s.len() ==> suffix(s, i).drop_first() == suffix(s, (i + 1) as usize),
        suffix(s, i).len() == s.len() - i,
        suffix(s, 0) == s,
{
    assert(s.skip(0) =~= s);
    if i < s.len() {
        assert(s.skip(i as int).drop_first() =~= s.skip(i + 1));
    }
}

/// String operations on a byte string.
pub trait StringBuffer {
    /// The first position at which `target` occurs.
    fn index_of(&self, target: Vector<u8>) -> Option<usize>;

    /// Whether `target` occurs.
    fn contains(&self, target: Vector<u8>) -> bool;

    /// The pieces between occurrences of `separator`.
    fn split(&self, separator: u8) -> Vector<Vector<u8>>;
}

impl StringBuffer for Vector<u8> {
    fn index_of(&self, target: Vector<u8>) -> (r: Option<usize>)
        ensures
            search_result(self@, target@, r),
    {
        crate::strings::index_of(self, &target)
    }

    fn contains(&self, target: Vector<u8>) -> (r: bool)
        ensures
            r <==> exists|i: usize| search_result(self@, target@, Some(i)),
    {
        let found = self.index_of(target);
        match found {
            Some(i) => true,
            None => {
                assert forall|i: usize| !search_result(self@, target@, Some(i)) by {
                    if search_result(self@, target@, Some(i)) {
                        assert(!crate::strings::occurs_at(self@, target@, i as int));
                    }
                }
                false
            },
        }
    }

    fn split(&self, separator: u8) -> (result: Vector<Vector<u8>>)
        ensures
            result@.map_values(|v: Vector<u8>| v@) == split_spec(self@, separator),
            forall|i: int| 0 <= i < result@.len() ==> !(#[trigger] result@[i])@.contains(separator),
            join_pieces(result@.map_values(|v: Vector<u8>| v@), separator) == if self@.len() == 0
                || self@.last() == separator {
                self@
            } else {
                self@.push(separator)
            },
    {
        let mut result: Vector<Vector<u8>> = Vector::new();
        let mut temp: Vector<u8> = Vector::new();
        let n = self.size();
        let mut idx: usize = 0;
        while idx < n
            invariant
                n == self@.len(),
                idx <= n,
                split_state(self@.take(idx as int), separator) == (
                    result@.map_values(|v: Vector<u8>| v@),
                    temp@,
                ),
            decreases n - idx,
        {
            assert(self@.take(idx + 1).drop_last() =~= self@.take(idx as int));
            let byte = self.get_byte(idx);
            if byte == separator {
                let ghost old_parts = result@.map_values(|v: Vector<u8>| v@);
                result.push(temp.clone());
                assert(result@.map_values(|v: Vector<u8>| v@) =~= old_parts.push(temp@));
                temp.clear();
            } else {
                temp.push(byte);
            }
            idx = idx + 1;
        }
        assert(self@.take(n as int) =~= self@);
        if temp.size() > 0 {
            let ghost old_parts = result@.map_values(|v: Vector<u8>| v@);
            result.push(temp.clone());
            assert(result@.map_values(|v: Vector<u8>| v@) =~= old_parts.push(temp@));
        }
        proof {
            lemma_split_rejoins(self@, separator);
            assert forall|i: int| 0 <= i < result@.len() implies !(#[trigger] result@[i])@.contains(separator) by {
                assert(result@.map_values(|v: Vector<u8>| v@)[i] == result@[i]@);
            }
        }
        result
    }
}

impl Vector<u8> {
    /// The byte at `index`.
    fn get_byte(&self, index: usize) -> (b: u8)
        requires
            index < self@.len(),
        ensures
            b == self@[index as int],
    {
        match crate::datastructures::Array::get(self, index) {
            Some(b) => b,
            None => 0,
        }
    }
}

impl PartialEq for Vector<u8> {
    fn eq(&self, other: &Self) -> (r: bool) {
        if self.size() != other.size() {
            return false;
        }
        let n = self.size();
        let mut idx: usize = 0;
        while idx < n
            invariant
                n == self@.len(),
                n == other@.len(),
                idx <= n,
                forall|k: int| 0 <= k < idx ==> self@[k] == other@[k],
            decreases n - idx,
        {
            let left = self.get_byte(idx);
            let right = other.get_byte(idx);
            if left != right {
                return false;
            }
            idx = idx + 1;
        }
        assert(self@ =~= other@);
        true
    }
}

impl vstd::std_specs::cmp::PartialEqSpecImpl for Vector<u8> {
    open spec fn obeys_eq_spec() -> bool {
        true
    }

    open spec fn eq_spec(&self, other: &Vector<u8>) -> bool {
        self@ == other@
    }
}

impl PartialOrd for Vector<u8> {
    fn partial_cmp(&self, other: &Self) -> (r: Option<Ordering>) {
        let sa = self.size();
        let sb = other.size();
        let min_count = if self.size() > other.size() {
            other.size()
        } else {
            self.size()
        };
        let mut idx: usize = 0;
        proof {
            lemma_suffix_step(self@, 0);
            lemma_suffix_step(other@, 0);
        }
        while idx < min_count
            invariant
                sa == self@.len(),
                sb == other@.len(),
                min_count <= self@.len(),
                min_count <= other@.len(),
                min_count == self@.len() || min_count == other@.len(),
                idx <= min_count,
                compare_bytes(self@, other@) == compare_bytes(
                    suffix(self@, idx),
                    suffix(other@, idx),
                ),
            decreases min_count - idx,
        {
            let left = self.get_byte(idx);
            let right = other.get_byte(idx);
            proof {
                lemma_suffix_step(self@, idx);
                lemma_suffix_step(other@, idx);
            }
            if left == right {
                idx = idx + 1;
                continue;
            } else if left < right {
                return Some(Ordering::Less);
            } else {
                return Some(Ordering::Greater);
            }
        }
        proof {
            lemma_suffix_step(self@, idx);
        }
        if self.size() > other.size() {
            Some(Ordering::Greater)
        } else {
            Some(Ordering::Less)
        }
    }
}

impl vstd::std_specs::cmp::PartialOrdSpecImpl for Vector<u8> {
    open spec fn obeys_partial_cmp_spec() -> bool {
        true
    }

    open spec fn partial_cmp_spec(&self, other: &Vector<u8>) -> Option<Ordering> {
        compare_bytes(self@, other@)
    }
}

} // verus!
