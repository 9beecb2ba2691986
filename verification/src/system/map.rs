//! An unbalanced binary search tree mapping keys to values. Inserting a
//! key that is already present keeps the stored value; `keys` lists the
//! keys in pre-order (node, left subtree, right subtree).
use vstd::prelude::*;
use crate::datastructures::{Stack, Vector};

verus! {

/// Keys with a strict total order, usable in a search tree.
pub trait MapKey: Copy + Sized {
    /// `self` comes strictly before `other`.
    spec fn precedes(self, other: Self) -> bool;

    /// The order is strict and total.
    proof fn lemma_order(a: Self, b: Self, c: Self)
        ensures
            !a.precedes(a),
            a.precedes(b) && b.precedes(c) ==> a.precedes(c),
            a != b ==> a.precedes(b) || b.precedes(a),
            a.precedes(b) ==> !b.precedes(a),
    ;

    /// Equality of keys.
    fn key_equals(&self, other: &Self) -> (r: bool)
        ensures
            r == (*self == *other),
    ;

    /// `self < other`.
    fn key_precedes(&self, other: &Self) -> (r: bool)
        ensures
            r == self.precedes(*other),
    ;
}

impl MapKey for u8 {
    open spec fn precedes(self, other: Self) -> bool {
        self < other
    }

    proof fn lemma_order(a: Self, b: Self, c: Self) {
    }

    fn key_equals(&self, other: &Self) -> (r: bool) {
        *self == *other
    }

    fn key_precedes(&self, other: &Self) -> (r: bool) {
        *self < *other
    }
}

impl MapKey for i8 {
    open spec fn precedes(self, other: Self) -> bool {
        self < other
    }

    proof fn lemma_order(a: Self, b: Self, c: Self) {
    }

    fn key_equals(&self, other: &Self) -> (r: bool) {
        *self == *other
    }

    fn key_precedes(&self, other: &Self) -> (r: bool) {
        *self < *other
    }
}

impl MapKey for i16 {
    open spec fn precedes(self, other: Self) -> bool {
        self < other
    }

    proof fn lemma_order(a: Self, b: Self, c: Self) {
    }

    fn key_equals(&self, other: &Self) -> (r: bool) {
        *self == *other
    }

    fn key_precedes(&self, other: &Self) -> (r: bool) {
        *self < *other
    }
}

impl MapKey for i32 {
    open spec fn precedes(self, other: Self) -> bool {
        self < other
    }

    proof fn lemma_order(a: Self, b: Self, c: Self) {
    }

    fn key_equals(&self, other: &Self) -> (r: bool) {
        *self == *other
    }

    fn key_precedes(&self, other: &Self) -> (r: bool) {
        *self < *other
    }
}

impl MapKey for i64 {
    open spec fn precedes(self, other: Self) -> bool {
        self < other
    }

    proof fn lemma_order(a: Self, b: Self, c: Self) {
    }

    fn key_equals(&self, other: &Self) -> (r: bool) {
        *self == *other
    }

    fn key_precedes(&self, other: &Self) -> (r: bool) {
        *self < *other
    }
}

impl MapKey for isize {
    open spec fn precedes(self, other: Self) -> bool {
        self < other
    }

    proof fn lemma_order(a: Self, b: Self, c: Self) {
    }

    fn key_equals(&self, other: &Self) -> (r: bool) {
        *self == *other
    }

    fn key_precedes(&self, other: &Self) -> (r: bool) {
        *self < *other
    }
}

impl MapKey for u16 {
    open spec fn precedes(self, other: Self) -> bool {
        self < other
    }

    proof fn lemma_order(a: Self, b: Self, c: Self) {
    }

    fn key_equals(&self, other: &Self) -> (r: bool) {
        *self == *other
    }

    fn key_precedes(&self, other: &Self) -> (r: bool) {
        *self < *other
    }
}

impl MapKey for u32 {
    open spec fn precedes(self, other: Self) -> bool {
        self < other
    }

    proof fn lemma_order(a: Self, b: Self, c: Self) {
    }

    fn key_equals(&self, other: &Self) -> (r: bool) {
        *self == *other
    }

    fn key_precedes(&self, other: &Self) -> (r: bool) {
        *self < *other
    }
}

impl MapKey for u64 {
    open spec fn precedes(self, other: Self) -> bool {
        self < other
    }

    proof fn lemma_order(a: Self, b: Self, c: Self) {
    }

    fn key_equals(&self, other: &Self) -> (r: bool) {
        *self == *other
    }

    fn key_precedes(&self, other: &Self) -> (r: bool) {
        *self < *other
    }
}

impl MapKey for usize {
    open spec fn precedes(self, other: Self) -> bool {
        self < other
    }

    proof fn lemma_order(a: Self, b: Self, c: Self) {
    }

    fn key_equals(&self, other: &Self) -> (r: bool) {
        *self == *other
    }

    fn key_precedes(&self, other: &Self) -> (r: bool) {
        *self < *other
    }
}

/// Key-value map operations.
pub trait OrderedMap<K: MapKey, V: Copy>: Sized {
    /// The entries held.
    spec fn entries(&self) -> Map<K, V>;

    /// Adds `key` with `value` unless `key` is already present.
    fn insert(&mut self, key: K, value: V)
        requires
            old(self).entries().len() < usize::MAX,
        ensures
            final(self).entries() == inserted(old(self).entries(), key, value),
    ;

    /// Leaves the map as it is.
    fn remove(&mut self, key: K)
        ensures
            final(self).entries() == old(self).entries(),
    ;

    /// The value stored under `key`, if any.
    fn get(&self, key: K) -> (r: Option<V>)
        ensures
            r == lookup(self.entries(), key),
    ;

    /// The keys, each once.
    fn keys(&self) -> (r: Vector<K>)
        ensures
            r@.no_duplicates(),
            r@.to_set() == self.entries().dom(),
    ;
}

/// Tree operations on a node.
pub trait BTree<K: MapKey, V: Copy>: Sized {
    /// The entries held by the subtree.
    spec fn tree_entries(&self) -> Map<K, V>;

    /// The subtree is ordered.
    spec fn tree_ordered(&self) -> bool;

    /// The value stored under `target`, if any.
    fn get(&self, target: K) -> (r: Option<V>)
        requires
            self.tree_ordered(),
        ensures
            r == lookup(self.tree_entries(), target),
    ;

    /// A mutable reference to the value stored under `target`, if any;
    /// what is written through it becomes that entry's value.
    fn get_mut(&mut self, target: K) -> (r: Option<&mut V>)
        requires
            old(self).tree_ordered(),
        ensures
            match r {
                Some(x) => {
                    &&& old(self).tree_entries().contains_key(target)
                    &&& *x == old(self).tree_entries()[target]
                    &&& final(self).tree_entries() == old(self).tree_entries().insert(target, *final(x))
                    &&& final(self).tree_ordered()
                },
                None => !old(self).tree_entries().contains_key(target) && final(self).tree_entries()
                    == old(self).tree_entries() && final(self).tree_ordered(),
            },
    ;

    /// Adds `target` with `value` unless `target` is already present.
    fn insert(&mut self, target: K, value: V)
        requires
            old(self).tree_ordered(),
        ensures
            final(self).tree_ordered(),
            final(self).tree_entries() == inserted(old(self).tree_entries(), target, value),
            final(self).tree_entries().dom().finite(),
    ;

    /// The keys, each once.
    fn keys(&self) -> (r: Vector<K>)
        requires
            self.tree_ordered(),
        ensures
            r@.no_duplicates(),
            r@.to_set() == self.tree_entries().dom(),
    ;
}

/// The value under `key` in `m`, if any.
pub open spec fn lookup<K, V>(m: Map<K, V>, key: K) -> Option<V> {
    if m.contains_key(key) {
        Some(m[key])
    } else {
        None
    }
}

/// `m` after inserting `key` with `value` when `key` is absent.
pub open spec fn inserted<K, V>(m: Map<K, V>, key: K, value: V) -> Map<K, V> {
    if m.contains_key(key) {
        m
    } else {
        m.insert(key, value)
    }
}

/// How many of the first keys of `s` come before `root`.
pub open spec fn lead_before<K: MapKey>(s: Seq<K>, root: K) -> nat
    decreases s.len(),
{
    if s.len() == 0 || !s[0].precedes(root) {
        0
    } else {
        1 + lead_before(s.drop_first(), root)
    }
}

/// No more keys come first than `s` holds.
pub proof fn lemma_lead_before_bounded<K: MapKey>(s: Seq<K>, root: K)
    ensures
        lead_before(s, root) <= s.len(),
    decreases s.len(),
{
    if s.len() > 0 && s[0].precedes(root) {
        lemma_lead_before_bounded(s.drop_first(), root);
    }
}

/// The keys of a search tree in pre-order, `s`, after `k` is inserted:
/// the root first, then the keys before it, then the keys after it; a new
/// key goes into the part on its side, as a new leaf, and a key already
/// there changes nothing.
pub open spec fn preorder_insert<K: MapKey>(s: Seq<K>, k: K) -> Seq<K>
    decreases s.len(),
{
    if s.len() == 0 {
        seq![k]
    } else {
        let root = s[0];
        let rest = s.drop_first();
        let n = lead_before(rest, root);
        proof {
            lemma_lead_before_bounded(rest, root);
        }
        if k == root {
            s
        } else if k.precedes(root) {
            seq![root] + preorder_insert(rest.take(n as int), k) + rest.skip(n as int)
        } else {
            seq![root] + rest.take(n as int) + preorder_insert(rest.skip(n as int), k)
        }
    }
}

/// When every key of `l` comes before `root` and the first of `r` does
/// not, exactly the keys of `l` come first in `l + r`.
proof fn lemma_lead_before_split<K: MapKey>(l: Seq<K>, r: Seq<K>, root: K)
    requires
        forall|i: int| 0 <= i < l.len() ==> (#[trigger] l[i]).precedes(root),
        r.len() > 0 ==> !r[0].precedes(root),
    ensures
        lead_before(l + r, root) == l.len(),
    decreases l.len(),
{
    if l.len() == 0 {
        assert(l + r =~= r);
    } else {
        assert((l + r).drop_first() =~= l.drop_first() + r);
        assert((l + r)[0] == l[0]);
        lemma_lead_before_split(l.drop_first(), r, root);
    }
}

/// A node of the search tree.
pub struct MapNode<K: MapKey, V: Copy> {
    item: V,
    key: K,
    left: Option<Box<MapNode<K, V>>>,
    right: Option<Box<MapNode<K, V>>>,
}

impl<K: MapKey, V: Copy> MapNode<K, V> {
    /// The entries of an optional subtree.
    pub closed spec fn optional_as_map(node: Option<Box<MapNode<K, V>>>) -> Map<K, V>
        decreases node,
    {
        match node {
            None => Map::empty(),
            Some(n) => n.as_map(),
        }
    }

    /// The entries of the subtree rooted here.
    pub closed spec fn as_map(self) -> Map<K, V>
        decreases self,
    {
        MapNode::<K, V>::optional_as_map(self.left).union_prefer_right(
            MapNode::<K, V>::optional_as_map(self.right),
        ).insert(self.key, self.item)
    }

    /// The keys of an optional subtree in pre-order.
    pub closed spec fn optional_keys(node: Option<Box<MapNode<K, V>>>) -> Seq<K>
        decreases node,
    {
        match node {
            None => Seq::empty(),
            Some(n) => n.key_order(),
        }
    }

    /// The keys of the subtree rooted here in pre-order.
    pub closed spec fn key_order(self) -> Seq<K>
        decreases self,
    {
        seq![self.key] + MapNode::<K, V>::optional_keys(self.left) + MapNode::<K, V>::optional_keys(
            self.right,
        )
    }

    /// Ordering of an optional subtree.
    pub closed spec fn optional_ordered(node: Option<Box<MapNode<K, V>>>) -> bool
        decreases node,
    {
        match node {
            None => true,
            Some(n) => n.ordered(),
        }
    }

    /// Every key on the left precedes the node's key, which precedes every
    /// key on the right, and both subtrees are ordered.
    pub closed spec fn ordered(self) -> bool
        decreases self,
    {
        &&& forall|k: K| #[trigger]
            MapNode::<K, V>::optional_as_map(self.left).contains_key(k) ==> k.precedes(self.key)
        &&& forall|k: K| #[trigger]
            MapNode::<K, V>::optional_as_map(self.right).contains_key(k) ==> self.key.precedes(k)
        &&& MapNode::<K, V>::optional_ordered(self.left)
        &&& MapNode::<K, V>::optional_ordered(self.right)
    }

    /// A subtree holding the single entry `key` → `val`.
    pub fn new(key: K, val: V) -> (r: Self)
        ensures
            r.ordered(),
            r.tree_ordered(),
            r.as_map() == Map::<K, V>::empty().insert(key, val),
            r.tree_entries() == Map::<K, V>::empty().insert(key, val),
            r.key_order() == seq![key],
    {
        let r = MapNode { item: val, key: key, left: None, right: None };
        assert(r.as_map() =~= Map::<K, V>::empty().insert(key, val));
        assert(r.key_order() =~= seq![key]);
        r
    }

    /// The keys in pre-order are the keys of the entries.
    proof fn lemma_keys_match(self)
        ensures
            forall|k: K| #[trigger] self.as_map().contains_key(k) <==> self.key_order().contains(k),
        decreases self,
    {
        MapNode::<K, V>::lemma_optional_keys_match(self.left);
        MapNode::<K, V>::lemma_optional_keys_match(self.right);
        let l = MapNode::<K, V>::optional_keys(self.left);
        let r = MapNode::<K, V>::optional_keys(self.right);
        assert forall|k: K| #[trigger]
            self.as_map().contains_key(k) <==> self.key_order().contains(k) by {
            if self.key_order().contains(k) {
                let i = choose|i: int| 0 <= i < self.key_order().len() && self.key_order()[i] == k;
                if i >= 1 && i < 1 + l.len() {
                    assert(l[i - 1] == k);
                } else if i >= 1 + l.len() {
                    assert(r[i - 1 - l.len()] == k);
                }
            }
            if MapNode::<K, V>::optional_as_map(self.left).contains_key(k) {
                let j = choose|j: int| 0 <= j < l.len() && l[j] == k;
                assert(self.key_order()[1 + j] == k);
            }
            if MapNode::<K, V>::optional_as_map(self.right).contains_key(k) {
                let j = choose|j: int| 0 <= j < r.len() && r[j] == k;
                assert(self.key_order()[1 + l.len() + j] == k);
            }
            if k == self.key {
                assert(self.key_order()[0] == k);
            }
        }
    }

    proof fn lemma_optional_keys_match(node: Option<Box<MapNode<K, V>>>)
        ensures
            forall|k: K| #[trigger]
                MapNode::<K, V>::optional_as_map(node).contains_key(k)
                    <==> MapNode::<K, V>::optional_keys(node).contains(k),
        decreases node,
    {
        match node {
            None => {
                let e: Seq<K> = Seq::empty();
                assert(MapNode::<K, V>::optional_keys(node) == e);
                assert(MapNode::<K, V>::optional_as_map(node) == Map::<K, V>::empty());
                assert forall|k: K| !e.contains(k) by {}
                assert forall|k: K| !MapNode::<K, V>::optional_as_map(node).contains_key(k) by {}
                assert forall|k: K| !MapNode::<K, V>::optional_keys(node).contains(k) by {}
            },
            Some(n) => {
                n.lemma_keys_match();
                assert(MapNode::<K, V>::optional_as_map(node) == n.as_map());
                assert(MapNode::<K, V>::optional_keys(node) == n.key_order());
            },
        }
    }

    /// In an ordered subtree no key is listed twice.
    proof fn lemma_keys_unique(self)
        requires
            self.ordered(),
        ensures
            self.key_order().no_duplicates(),
        decreases self,
    {
        MapNode::<K, V>::lemma_optional_keys_unique(self.left);
        MapNode::<K, V>::lemma_optional_keys_unique(self.right);
        MapNode::<K, V>::lemma_optional_keys_match(self.left);
        MapNode::<K, V>::lemma_optional_keys_match(self.right);
        let l = MapNode::<K, V>::optional_keys(self.left);
        let r = MapNode::<K, V>::optional_keys(self.right);
        assert forall|i: int, j: int| 0 <= i < l.len() && 0 <= j < r.len() implies l[i] != r[j] by {
            assert(l.contains(l[i]));
            assert(r.contains(r[j]));
            assert(MapNode::<K, V>::optional_as_map(self.left).contains_key(l[i]));
            assert(MapNode::<K, V>::optional_as_map(self.right).contains_key(r[j]));
            K::lemma_order(l[i], self.key, r[j]);
        }
        vstd::seq_lib::lemma_no_dup_in_concat(l, r);
        assert forall|i: int| 0 <= i < (l + r).len() implies (l + r)[i] != self.key by {
            if i < l.len() {
                assert(l.contains(l[i]));
                assert(MapNode::<K, V>::optional_as_map(self.left).contains_key(l[i]));
                K::lemma_order(l[i], self.key, self.key);
            } else {
                assert(r.contains(r[i - l.len()]));
                assert(MapNode::<K, V>::optional_as_map(self.right).contains_key(r[i - l.len()]));
                K::lemma_order(self.key, r[i - l.len()], self.key);
            }
        }
        assert(self.key_order() =~= seq![self.key] + (l + r));
        assert forall|i: int, j: int|
            0 <= i < self.key_order().len() && 0 <= j < self.key_order().len() && i != j implies
            self.key_order()[i] != self.key_order()[j] by {
            if i > 0 && j > 0 {
                assert(self.key_order()[i] == (l + r)[i - 1]);
                assert(self.key_order()[j] == (l + r)[j - 1]);
            } else if i == 0 {
                assert(self.key_order()[j] == (l + r)[j - 1]);
            } else {
                assert(self.key_order()[i] == (l + r)[i - 1]);
            }
        }
    }

    proof fn lemma_optional_keys_unique(node: Option<Box<MapNode<K, V>>>)
        requires
            MapNode::<K, V>::optional_ordered(node),
        ensures
            MapNode::<K, V>::optional_keys(node).no_duplicates(),
        decreases node,
    {
        match node {
            None => {},
            Some(n) => {
                n.lemma_keys_unique();
            },
        }
    }

    /// In the pre-order keys of an ordered subtree, the keys of the left
    /// part are exactly the ones after the root that come before it.
    proof fn lemma_preorder_split(self)
        requires
            self.ordered(),
        ensures
            ({
                let rest = self.key_order().drop_first();
                let n = lead_before(rest, self.key);
                &&& n == MapNode::<K, V>::optional_keys(self.left).len()
                &&& rest.take(n as int) == MapNode::<K, V>::optional_keys(self.left)
                &&& rest.skip(n as int) == MapNode::<K, V>::optional_keys(self.right)
            }),
    {
        let l = MapNode::<K, V>::optional_keys(self.left);
        let r = MapNode::<K, V>::optional_keys(self.right);
        MapNode::<K, V>::lemma_optional_keys_match(self.left);
        MapNode::<K, V>::lemma_optional_keys_match(self.right);
        assert forall|i: int| 0 <= i < l.len() implies (#[trigger] l[i]).precedes(self.key) by {
            assert(l.contains(l[i]));
            assert(MapNode::<K, V>::optional_as_map(self.left).contains_key(l[i]));
        }
        if r.len() > 0 {
            assert(r.contains(r[0]));
            assert(MapNode::<K, V>::optional_as_map(self.right).contains_key(r[0]));
            K::lemma_order(self.key, r[0], self.key);
        }
        let rest = self.key_order().drop_first();
        assert(rest =~= l + r);
        lemma_lead_before_split(l, r, self.key);
        assert(rest.take(l.len() as int) =~= l);
        assert(rest.skip(l.len() as int) =~= r);
    }

    /// An ordered subtree holds as many entries as it lists keys.
    pub proof fn lemma_size_is_entry_count(self)
        requires
            self.ordered(),
        ensures
            self.key_order().to_set() == self.as_map().dom(),
            self.key_order().no_duplicates(),
            self.as_map().dom().finite(),
            self.as_map().len() == self.key_order().len(),
    {
        self.lemma_keys_match();
        self.lemma_keys_unique();
        assert(self.key_order().to_set() =~= self.as_map().dom());
        self.key_order().unique_seq_to_set();
        vstd::seq_lib::seq_to_set_is_finite(self.key_order());
    }

    fn get_from_optional(node: &Option<Box<MapNode<K, V>>>, target: K) -> (r: Option<V>)
        requires
            MapNode::<K, V>::optional_ordered(*node),
        ensures
            r == lookup(MapNode::<K, V>::optional_as_map(*node), target),
        decreases node,
    {
        match node {
            None => None,
            Some(n) => n.get_here(target),
        }
    }

    fn get_here(&self, target: K) -> (r: Option<V>)
        requires
            self.ordered(),
        ensures
            r == lookup(self.as_map(), target),
        decreases self,
    {
        if self.key.key_equals(&target) {
            Some(self.item)
        } else if target.key_precedes(&self.key) {
            proof {
                if MapNode::<K, V>::optional_as_map(self.right).contains_key(target) {
                    K::lemma_order(self.key, target, self.key);
                }
            }
            MapNode::<K, V>::get_from_optional(&self.left, target)
        } else {
            proof {
                K::lemma_order(self.key, target, self.key);
                if MapNode::<K, V>::optional_as_map(self.left).contains_key(target) {
                    K::lemma_order(target, self.key, target);
                }
            }
            MapNode::<K, V>::get_from_optional(&self.right, target)
        }
    }

    /// Changing the item at a node changes only its entry.
    proof fn lemma_item_set(n: MapNode<K, V>)
        ensures
            forall|v: V|
                #[trigger] (MapNode::<K, V> { item: v, key: n.key, left: n.left, right: n.right }).as_map()
                    == n.as_map().insert(n.key, v),
            forall|v: V|
                #[trigger] (MapNode::<K, V> { item: v, key: n.key, left: n.left, right: n.right }).key_order()
                    == n.key_order(),
            forall|v: V|
                #[trigger] (MapNode::<K, V> { item: v, key: n.key, left: n.left, right: n.right }).ordered()
                    == n.ordered(),
    {
        assert forall|v: V|
            #[trigger] (MapNode::<K, V> { item: v, key: n.key, left: n.left, right: n.right }).as_map()
                == n.as_map().insert(n.key, v) by {
            assert((MapNode::<K, V> { item: v, key: n.key, left: n.left, right: n.right }).as_map()
                =~= n.as_map().insert(n.key, v));
        }
    }

    /// Changing the entry of `t` in the subtree on `t`'s side of an ordered
    /// node, keeping that subtree's keys, changes only that entry.
    proof fn lemma_child_set(n: MapNode<K, V>, t: K)
        requires
            n.ordered(),
            t != n.key,
        ensures
            forall|c: MapNode<K, V>|
                #![trigger (MapNode::<K, V> { item: n.item, key: n.key, left: Some(Box::new(c)), right: n.right }).as_map()]
                t.precedes(n.key) && n.left is Some && c.as_map() == n.left.unwrap().as_map().insert(t, c.as_map()[t])
                    && c.key_order() == n.left.unwrap().key_order() && c.ordered() ==> ({
                    let m = MapNode::<K, V> { item: n.item, key: n.key, left: Some(Box::new(c)), right: n.right };
                    &&& m.as_map() == n.as_map().insert(t, c.as_map()[t])
                    &&& m.key_order() == n.key_order()
                    &&& m.ordered()
                }),
            forall|c: MapNode<K, V>|
                #![trigger (MapNode::<K, V> { item: n.item, key: n.key, left: n.left, right: Some(Box::new(c)) }).as_map()]
                n.key.precedes(t) && n.right is Some && c.as_map() == n.right.unwrap().as_map().insert(t, c.as_map()[t])
                    && c.key_order() == n.right.unwrap().key_order() && c.ordered() ==> ({
                    let m = MapNode::<K, V> { item: n.item, key: n.key, left: n.left, right: Some(Box::new(c)) };
                    &&& m.as_map() == n.as_map().insert(t, c.as_map()[t])
                    &&& m.key_order() == n.key_order()
                    &&& m.ordered()
                }),
    {
        assert forall|c: MapNode<K, V>|
            t.precedes(n.key) && n.left is Some && c.as_map() == n.left.unwrap().as_map().insert(t, c.as_map()[t])
                && c.key_order() == n.left.unwrap().key_order() && c.ordered() implies ({
                let m = MapNode::<K, V> { item: n.item, key: n.key, left: Some(Box::new(c)), right: n.right };
                &&& m.as_map() == n.as_map().insert(t, c.as_map()[t])
                &&& m.key_order() == n.key_order()
                &&& m.ordered()
            }) by {
            let m = MapNode::<K, V> { item: n.item, key: n.key, left: Some(Box::new(c)), right: n.right };
            if MapNode::<K, V>::optional_as_map(n.right).contains_key(t) {
                K::lemma_order(n.key, t, n.key);
            }
            assert(c.as_map().dom() =~= n.left.unwrap().as_map().dom().insert(t));
            assert(MapNode::<K, V>::optional_as_map(m.left) == c.as_map());
            assert(MapNode::<K, V>::optional_as_map(n.left) == n.left.unwrap().as_map());
            assert forall|k: K| #[trigger] MapNode::<K, V>::optional_as_map(m.left).contains_key(k) implies k.precedes(
                n.key,
            ) by {
                if k != t {
                    assert(MapNode::<K, V>::optional_as_map(n.left).contains_key(k));
                }
            }
            assert(MapNode::<K, V>::optional_keys(m.left) == c.key_order());
            assert(m.key_order() =~= n.key_order());
            assert(m.ordered());
            assert(m.as_map() =~= n.as_map().insert(t, c.as_map()[t]));
        }
        assert forall|c: MapNode<K, V>|
            n.key.precedes(t) && n.right is Some && c.as_map() == n.right.unwrap().as_map().insert(t, c.as_map()[t])
                && c.key_order() == n.right.unwrap().key_order() && c.ordered() implies ({
                let m = MapNode::<K, V> { item: n.item, key: n.key, left: n.left, right: Some(Box::new(c)) };
                &&& m.as_map() == n.as_map().insert(t, c.as_map()[t])
                &&& m.key_order() == n.key_order()
                &&& m.ordered()
            }) by {
            let m = MapNode::<K, V> { item: n.item, key: n.key, left: n.left, right: Some(Box::new(c)) };
            if MapNode::<K, V>::optional_as_map(n.left).contains_key(t) {
                K::lemma_order(t, n.key, t);
            }
            assert(c.as_map().dom() =~= n.right.unwrap().as_map().dom().insert(t));
            assert(MapNode::<K, V>::optional_as_map(m.right) == c.as_map());
            assert(MapNode::<K, V>::optional_as_map(n.right) == n.right.unwrap().as_map());
            assert forall|k: K| #[trigger] MapNode::<K, V>::optional_as_map(m.right).contains_key(k) implies n.key.precedes(
                k,
            ) by {
                if k != t {
                    assert(MapNode::<K, V>::optional_as_map(n.right).contains_key(k));
                }
            }
            assert(MapNode::<K, V>::optional_keys(m.right) == c.key_order());
            assert(m.key_order() =~= n.key_order());
            assert(m.ordered());
            assert(m.as_map() =~= n.as_map().insert(t, c.as_map()[t]));
        }
    }

    fn get_mut_here(&mut self, target: K) -> (r: Option<&mut V>)
        requires
            old(self).ordered(),
        ensures
            match r {
                Some(x) => {
                    &&& old(self).as_map().contains_key(target)
                    &&& *x == old(self).as_map()[target]
                    &&& final(self).as_map() == old(self).as_map().insert(target, *final(x))
                    &&& final(self).key_order() == old(self).key_order()
                    &&& final(self).ordered()
                },
                None => !old(self).as_map().contains_key(target) && *final(self) == *old(self),
            },
        decreases *old(self),
    {
        if self.key.key_equals(&target) {
            proof {
                MapNode::<K, V>::lemma_optional_keys_match(self.left);
                assert(old(self).as_map()[target] == old(self).item);
            }
            proof {
                MapNode::<K, V>::lemma_item_set(*old(self));
            }
            Some(&mut self.item)
        } else if target.key_precedes(&self.key) {
            proof {
                MapNode::<K, V>::lemma_optional_keys_match(self.left);
                if MapNode::<K, V>::optional_as_map(self.right).contains_key(target) {
                    K::lemma_order(self.key, target, self.key);
                }
                K::lemma_order(target, self.key, target);
                MapNode::<K, V>::lemma_child_set(*old(self), target);
            }
            match &mut self.left {
                None => None,
                Some(b) => b.get_mut_here(target),
            }
        } else {
            proof {
                K::lemma_order(self.key, target, self.key);
                if MapNode::<K, V>::optional_as_map(self.left).contains_key(target) {
                    K::lemma_order(target, self.key, target);
                }
                MapNode::<K, V>::lemma_child_set(*old(self), target);
            }
            match &mut self.right {
                None => None,
                Some(b) => b.get_mut_here(target),
            }
        }
    }

    fn insert_into_optional(node: &mut Option<Box<MapNode<K, V>>>, target: K, value: V)
        requires
            MapNode::<K, V>::optional_ordered(*old(node)),
        ensures
            MapNode::<K, V>::optional_ordered(*final(node)),
            MapNode::<K, V>::optional_as_map(*final(node)) == inserted(
                MapNode::<K, V>::optional_as_map(*old(node)),
                target,
                value,
            ),
            MapNode::<K, V>::optional_keys(*final(node)) == preorder_insert(
                MapNode::<K, V>::optional_keys(*old(node)),
                target,
            ),
        decreases *old(node),
    {
        match node.take() {
            None => {
                let n = MapNode::new(target, value);
                *node = Some(Box::new(n));
            },
            Some(mut boxed) => {
                boxed.insert_here(target, value);
                *node = Some(boxed);
            },
        }
    }

    fn insert_here(&mut self, target: K, value: V)
        requires
            old(self).ordered(),
        ensures
            final(self).ordered(),
            final(self).as_map() == inserted(old(self).as_map(), target, value),
            final(self).key_order() == preorder_insert(old(self).key_order(), target),
        decreases *old(self),
    {
        proof {
            old(self).lemma_preorder_split();
            assert(old(self).key_order()[0] == old(self).key);
        }
        if target.key_equals(&self.key) {
            return;
        } else if target.key_precedes(&self.key) {
            proof {
                K::lemma_order(target, self.key, target);
            }
            MapNode::<K, V>::insert_into_optional(&mut self.left, target, value);
            proof {
                if MapNode::<K, V>::optional_as_map(self.right).contains_key(target) {
                    K::lemma_order(self.key, target, self.key);
                }
                assert(self.as_map() =~= inserted(old(self).as_map(), target, value));
                assert(self.key_order() =~= preorder_insert(old(self).key_order(), target));
            }
        } else {
            proof {
                K::lemma_order(self.key, target, self.key);
            }
            MapNode::<K, V>::insert_into_optional(&mut self.right, target, value);
            proof {
                if MapNode::<K, V>::optional_as_map(self.left).contains_key(target) {
                    K::lemma_order(target, self.key, target);
                }
                assert(self.as_map() =~= inserted(old(self).as_map(), target, value));
                assert(self.key_order() =~= preorder_insert(old(self).key_order(), target));
            }
        }
    }

    fn keys_of_optional(node: &Option<Box<MapNode<K, V>>>) -> (r: Vector<K>)
        ensures
            r@ == MapNode::<K, V>::optional_keys(*node),
        decreases node,
    {
        match node {
            None => Vector::new(),
            Some(n) => n.keys_here(),
        }
    }

    fn keys_here(&self) -> (r: Vector<K>)
        ensures
            r@ == self.key_order(),
        decreases self,
    {
        let mut result = Vector::new();
        result.push(self.key);
        result.join(MapNode::<K, V>::keys_of_optional(&self.left));
        result.join(MapNode::<K, V>::keys_of_optional(&self.right));
        result
    }

    fn size_of_optional(node: &Option<Box<MapNode<K, V>>>) -> (n: usize)
        requires
            MapNode::<K, V>::optional_keys(*node).len() <= usize::MAX,
        ensures
            n == MapNode::<K, V>::optional_keys(*node).len(),
        decreases node,
    {
        match node {
            None => 0,
            Some(b) => b.count(),
        }
    }

    fn count(&self) -> (n: usize)
        requires
            self.key_order().len() <= usize::MAX,
        ensures
            n == self.key_order().len(),
        decreases self,
    {
        let l = MapNode::<K, V>::size_of_optional(&self.left);
        let r = MapNode::<K, V>::size_of_optional(&self.right);
        1 + l + r
    }

    /// The number of entries in the subtree rooted here.
    pub fn size(&self) -> (n: usize)
        requires
            self.tree_ordered(),
            self.tree_entries().len() <= usize::MAX,
        ensures
            n == self.tree_entries().len(),
    {
        proof {
            self.lemma_size_is_entry_count();
        }
        self.count()
    }
}

impl<K: MapKey, V: Copy> BTree<K, V> for MapNode<K, V> {
    closed spec fn tree_entries(&self) -> Map<K, V> {
        self.as_map()
    }

    closed spec fn tree_ordered(&self) -> bool {
        self.ordered()
    }

    fn get(&self, target: K) -> (r: Option<V>) {
        self.get_here(target)
    }

    fn get_mut(&mut self, target: K) -> (r: Option<&mut V>)
        ensures
            r is Some ==> final(self).key_order() == old(self).key_order(),
            r is None ==> *final(self) == *old(self),
    {
        self.get_mut_here(target)
    }

    fn insert(&mut self, target: K, value: V)
        ensures
            final(self).key_order() == preorder_insert(old(self).key_order(), target),
    {
        self.insert_here(target, value);
        proof {
            self.lemma_size_is_entry_count();
        }
    }

    fn keys(&self) -> (r: Vector<K>)
        ensures
            r@ == self.key_order(),
    {
        proof {
            self.lemma_size_is_entry_count();
        }
        self.keys_here()
    }
}

/// An ordered map backed by an unbalanced binary search tree.
pub struct BTreeMap<K: MapKey, V: Copy> {
    root: Option<MapNode<K, V>>,
}

impl<K: MapKey, V: Copy> BTreeMap<K, V> {
    /// The tree is ordered and its node count fits a `usize`.
    #[verifier::type_invariant]
    spec fn tree_is_ordered(self) -> bool {
        match self.root {
            None => true,
            Some(n) => n.ordered() && n.key_order().len() <= usize::MAX,
        }
    }

    /// The entries of the map.
    pub closed spec fn entry_map(self) -> Map<K, V> {
        match self.root {
            None => Map::empty(),
            Some(n) => n.as_map(),
        }
    }

    /// The keys in the order `keys` lists them: pre-order.
    pub closed spec fn key_order(self) -> Seq<K> {
        match self.root {
            None => Seq::empty(),
            Some(n) => n.key_order(),
        }
    }

    /// An empty map.
    pub fn new() -> (r: Self)
        ensures
            r@ == Map::<K, V>::empty(),
            r.entries() == Map::<K, V>::empty(),
            r.key_order() == Seq::<K>::empty(),
    {
        BTreeMap { root: None }
    }

    /// The number of entries.
    pub fn size(&self) -> (n: usize)
        ensures
            n == self@.len(),
    {
        proof {
            use_type_invariant(self);
        }
        match &self.root {
            None => {
                assert(self@ =~= Map::<K, V>::empty());
                0
            },
            Some(node) => {
                proof {
                    node.lemma_size_is_entry_count();
                }
                node.size()
            },
        }
    }

    /// The listed keys are exactly the keys of the entries, each once.
    proof fn lemma_key_order(&self)
        requires
            self.tree_is_ordered(),
        ensures
            self.key_order().no_duplicates(),
            self.key_order().to_set() == self@.dom(),
            self@.dom().finite(),
            self@.len() == self.key_order().len(),
    {
        match self.root {
            None => {
                assert(self.key_order().to_set() =~= self@.dom());
            },
            Some(n) => {
                n.lemma_size_is_entry_count();
            },
        }
    }
}

impl<K: MapKey, V: Copy> OrderedMap<K, V> for BTreeMap<K, V> {
    open spec fn entries(&self) -> Map<K, V> {
        self.entry_map()
    }

    fn insert(&mut self, key: K, value: V)
        ensures
            final(self).entries().dom().finite(),
            final(self).key_order() == preorder_insert(old(self).key_order(), key),
    {
        proof {
            use_type_invariant(&*self);
            self.lemma_key_order();
        }
        let mut root: Option<MapNode<K, V>> = None;
        std::mem::swap(&mut root, &mut self.root);
        match root {
            None => {
                let n = MapNode::new(key, value);
                self.root = Some(n);
                assert(self.entry_map() =~= inserted(old(self).entry_map(), key, value));
                proof {
                    n.lemma_size_is_entry_count();
                }
            },
            Some(mut n) => {
                proof {
                    n.lemma_size_is_entry_count();
                }
                n.insert_here(key, value);
                proof {
                    n.lemma_size_is_entry_count();
                    if !old(self).entry_map().contains_key(key) {
                        assert(n.as_map().dom() =~= old(self).entry_map().dom().insert(key));
                    } else {
                        assert(n.as_map().dom() =~= old(self).entry_map().dom());
                    }
                }
                self.root = Some(n);
            },
        }
    }

    fn remove(&mut self, key: K) {
    }

    fn get(&self, key: K) -> (r: Option<V>) {
        proof {
            use_type_invariant(self);
        }
        match &self.root {
            None => None,
            Some(node) => node.get_here(key),
        }
    }

    fn keys(&self) -> (r: Vector<K>)
        ensures
            r@ == self.key_order(),
    {
        proof {
            use_type_invariant(self);
            self.lemma_key_order();
        }
        match &self.root {
            None => Vector::new(),
            Some(head) => head.keys_here(),
        }
    }
}

impl<K: MapKey, V: Copy> View for BTreeMap<K, V> {
    type V = Map<K, V>;

    open spec fn view(&self) -> Map<K, V> {
        self.entry_map()
    }
}

/// A read after an insert gives back the value inserted, unless the key
/// was already present, in which case the old value stays; every other
/// key reads as before.
pub proof fn lemma_get_after_insert<K, V>(m: Map<K, V>, key: K, value: V, other: K)
    ensures
        lookup(inserted(m, key, value), key) == Some(if m.contains_key(key) { m[key] } else { value }),
        other != key ==> lookup(inserted(m, key, value), other) == lookup(m, other),
{
}

/// An insert adds one entry when the key is new and none when it is
/// already present.
pub proof fn lemma_size_after_insert<K, V>(m: Map<K, V>, key: K, value: V)
    requires
        m.dom().finite(),
    ensures
        inserted(m, key, value).len() == m.len() + (if m.contains_key(key) { 0int } else { 1int }),
        inserted(m, key, value).dom() == m.dom().insert(key),
{
    if !m.contains_key(key) {
        assert(m.insert(key, value).dom() =~= m.dom().insert(key));
    } else {
        assert(m.dom().insert(key) =~= m.dom());
    }
}

/// Inserting a key twice is inserting it once.
pub proof fn lemma_insert_idempotent<K, V>(m: Map<K, V>, key: K, first: V, second: V)
    ensures
        inserted(inserted(m, key, first), key, second) == inserted(m, key, first),
{
}

} // verus!
