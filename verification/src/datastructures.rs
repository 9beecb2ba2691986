//! Stack, queue and indexed containers: a growable `Vector` and a
//! fixed-capacity `Buffer`.
use vstd::prelude::*;

verus! {

/// The abstract contents shared by the container traits.
pub trait Items<T> {
    /// The items held, front first.
    spec fn items(&self) -> Seq<T>;

    /// The container's own consistency condition.
    spec fn well_formed(&self) -> bool;
}

/// Last-in first-out access.
pub trait Stack<T>: Items<T> + Sized {
    /// Adds `item` at the back, or leaves the container unchanged when it
    /// has no room.
    fn push(&mut self, item: T)
        requires
            old(self).well_formed(),
        ensures
            final(self).well_formed(),
            final(self).items() == old(self).items().push(item) || final(self).items() == old(self).items(),
    ;

    /// Removes and returns the back item.
    fn pop(&mut self) -> (r: Option<T>)
        requires
            old(self).well_formed(),
        ensures
            final(self).well_formed(),
            old(self).items().len() == 0 ==> r is None && final(self).items() == old(self).items(),
            old(self).items().len() > 0 ==> r == Some(old(self).items().last()) && final(self).items() == old(self).items().drop_last(),
    ;
}

/// First-in first-out access.
pub trait Queue<T>: Items<T> + Sized {
    /// Adds `item` at the back, or leaves the container unchanged when it
    /// has no room.
    fn enqueue(&mut self, item: T)
        requires
            old(self).well_formed(),
        ensures
            final(self).well_formed(),
            final(self).items() == old(self).items().push(item) || final(self).items() == old(self).items(),
    ;

    /// Removes and returns the front item.
    fn dequeue(&mut self) -> (r: Option<T>)
        requires
            old(self).well_formed(),
        ensures
            final(self).well_formed(),
            old(self).items().len() == 0 ==> r is None && final(self).items() == old(self).items(),
            old(self).items().len() > 0 ==> r == Some(old(self).items()[0]) && final(self).items() == old(self).items().drop_first(),
    ;
}

/// Indexed access.
pub trait Array<T>: Items<T> + Sized {
    /// The item at `index`, if there is one.
    fn get(&self, index: usize) -> (r: Option<T>)
        requires
            self.well_formed(),
        ensures
            index < self.items().len() ==> r == Some(self.items()[index as int]),
            index >= self.items().len() ==> r is None,
    ;

    /// A mutable reference to the item at `index`, if there is one.
    fn get_mut(&mut self, index: usize) -> (r: Option<&mut T>)
        requires
            old(self).well_formed(),
        ensures
            index >= old(self).items().len() ==> r is None && final(self).items() == old(self).items(),
            index < old(self).items().len() ==> (r matches Some(x) && *x == old(self).items()[index as int]
                && final(self).items() == old(self).items().update(index as int, *final(x))),
    ;

    /// How many items there are.
    fn size(&self) -> (n: usize)
        requires
            self.well_formed(),
        ensures
            n == self.items().len(),
    ;
}

/// A growable sequence of copyable items.
pub struct Vector<T> {
    elems: Vec<T>,
}

impl<T> View for Vector<T> {
    type V = Seq<T>;

    closed spec fn view(&self) -> Seq<T> {
        self.elems@
    }
}

impl<T> Items<T> for Vector<T> {
    open spec fn items(&self) -> Seq<T> {
        self@
    }

    open spec fn well_formed(&self) -> bool {
        true
    }
}

impl<T: Copy> Clone for Vector<T> {
    fn clone(&self) -> (r: Self)
        ensures
            r@ == self@,
    {
        let mut elems: Vec<T> = Vec::new();
        let mut i: usize = 0;
        while i < self.elems.len()
            invariant
                i <= self.elems@.len(),
                elems@ == self.elems@.take(i as int),
            decreases self.elems@.len() - i,
        {
            elems.push(self.elems[i]);
            i = i + 1;
            assert(elems@ =~= self.elems@.take(i as int));
        }
        assert(self.elems@.take(i as int) =~= self.elems@);
        Vector { elems }
    }
}

impl<T> Vector<T> {
    /// An empty vector.
    pub fn new() -> (r: Self)
        ensures
            r@ == Seq::<T>::empty(),
    {
        Vector { elems: Vec::new() }
    }


    /// How many items there are.
    pub fn size(&self) -> (n: usize)
        ensures
            n == self@.len(),
    {
        self.elems.len()
    }

    /// The items, in order.
    pub fn as_slice(&self) -> (r: &[T])
        ensures
            r@ == self@,
    {
        self.elems.as_slice()
    }

    /// Removes every item.
    pub fn clear(&mut self)
        ensures
            final(self)@ == Seq::<T>::empty(),
    {
        self.elems = Vec::new();
    }
}

impl<T: Copy> Vector<T> {
    /// A vector holding the items of `items`, in order.
    pub fn from_slice(items: &[T]) -> (r: Self)
        ensures
            r@ == items@,
    {
        let mut result = Vector::new();
        let mut i: usize = 0;
        while i < items.len()
            invariant
                i <= items@.len(),
                result@ == items@.take(i as int),
            decreases items@.len() - i,
        {
            result.elems.push(items[i]);
            i = i + 1;
            assert(result@ =~= items@.take(i as int));
        }
        assert(items@.take(i as int) =~= items@);
        result
    }

    /// Appends the items of `vec_to_join` at the back.
    pub fn join(&mut self, vec_to_join: Vector<T>)
        ensures
            final(self)@ == old(self)@ + vec_to_join@,
    {
        let mut i: usize = 0;
        while i < vec_to_join.elems.len()
            invariant
                i <= vec_to_join@.len(),
                self@ == old(self)@ + vec_to_join@.take(i as int),
            decreases vec_to_join@.len() - i,
        {
            self.elems.push(vec_to_join.elems[i]);
            i = i + 1;
            assert(self@ =~= old(self)@ + vec_to_join@.take(i as int));
        }
        assert(vec_to_join@.take(i as int) =~= vec_to_join@);
    }

    /// The `length` items starting at `start`, when they all exist.
    pub fn substr(&self, start: usize, length: usize) -> (r: Option<Self>)
        requires
            start + length <= usize::MAX,
        ensures
            start + length > self@.len() ==> r is None,
            start + length <= self@.len() ==> (r matches Some(v) && v@ == self@.subrange(
                start as int,
                start + length,
            )),
    {
        if start + length > self.size() {
            return None;
        }
        let mut result = Vector::new();
        let end = start + length;
        let mut idx: usize = start;
        while idx < end
            invariant
                start <= idx <= end,
                end == start + length,
                end <= self@.len(),
                result@ == self@.subrange(start as int, idx as int),
            decreases end - idx,
        {
            result.elems.push(self.elems[idx]);
            idx = idx + 1;
            assert(result@ =~= self@.subrange(start as int, idx as int));
        }
        Some(result)
    }
}

impl<T: Copy> Vector<Vector<T>> {
    /// A copy of the inner vector at `index`, if there is one.
    pub fn get(&self, index: usize) -> (r: Option<Vector<T>>)
        ensures
            index < self@.len() ==> (r matches Some(v) && v@ == self@[index as int]@),
            index >= self@.len() ==> r is None,
    {
        if index >= self.elems.len() {
            None
        } else {
            Some(self.elems[index].clone())
        }
    }
}

impl<T: Copy> Array<T> for Vector<T> {
    fn get(&self, index: usize) -> (r: Option<T>) {
        if index >= self.elems.len() {
            None
        } else {
            Some(self.elems[index])
        }
    }

    fn get_mut(&mut self, index: usize) -> (r: Option<&mut T>) {
        if index >= self.elems.len() {
            None
        } else {
            Some(&mut self.elems[index])
        }
    }

    fn size(&self) -> (n: usize) {
        self.elems.len()
    }
}

impl<T> Queue<T> for Vector<T> {
    fn enqueue(&mut self, item: T)
        ensures
            final(self)@ == old(self)@.push(item),
    {
        self.elems.push(item);
    }

    fn dequeue(&mut self) -> (r: Option<T>) {
        if self.elems.len() == 0 {
            None
        } else {
            Some(self.elems.remove(0))
        }
    }
}

impl<T> Stack<T> for Vector<T> {
    fn push(&mut self, item: T)
        ensures
            final(self)@ == old(self)@.push(item),
    {
        self.elems.push(item);
    }

    fn pop(&mut self) -> (r: Option<T>) {
        self.elems.pop()
    }
}

/// A fixed-capacity container that supports stack and queue operations
/// without allocating: items live in `data[0..tail]`.
pub struct Buffer<const SIZE: usize, T> {
    pub data: [T; SIZE],
    pub tail: usize,
}

impl<const SIZE: usize, T: Copy> Items<T> for Buffer<SIZE, T> {
    open spec fn items(&self) -> Seq<T> {
        self.data@.take(self.tail as int)
    }

    open spec fn well_formed(&self) -> bool {
        self.tail <= SIZE
    }
}

impl<const SIZE: usize, T: Copy> Buffer<SIZE, T> {
    /// An empty buffer whose storage is filled with `default`.
    pub fn new(default: T) -> (r: Self)
        ensures
            r.tail == 0,
            r.data@ == Seq::new(SIZE as nat, |i: int| default),
    {
        let r = Buffer { data: [default; SIZE], tail: 0 };
        assert(r.data@ =~= Seq::new(SIZE as nat, |i: int| default));
        r
    }

    /// How many items are held.
    pub fn size(&self) -> (n: usize)
        ensures
            n == self.tail,
    {
        self.tail
    }

    /// The whole storage, including the slots past the held items.
    pub fn as_array(&self) -> (r: &[T])
        ensures
            r@ == self.data@,
    {
        self.data.as_slice()
    }

    /// Forgets every held item; the storage is left as it is.
    pub fn clear(&mut self)
        ensures
            final(self).tail == 0,
            final(self).data == old(self).data,
    {
        self.tail = 0;
    }
}

impl<const SIZE: usize, T: Copy> Stack<T> for Buffer<SIZE, T> {
    /// When the buffer is full the item is discarded.
    fn push(&mut self, item: T)
        ensures
            final(self).items() == keep_if_room(old(self).items(), item, SIZE as nat),
            old(self).tail == SIZE ==> *final(self) == *old(self),
            old(self).tail < SIZE ==> final(self).tail == old(self).tail + 1 && final(self).data@
                == old(self).data@.update(old(self).tail as int, item),
    {
        if self.tail == SIZE {
            return;
        }
        self.data[self.tail] = item;
        self.tail = self.tail + 1;
        assert(self.data@.take(self.tail as int) =~= old(self).data@.take(
            old(self).tail as int,
        ).push(item));
    }

    fn pop(&mut self) -> (r: Option<T>)
        ensures
            final(self).data == old(self).data,
    {
        if self.tail == 0 {
            return None;
        }
        let item = self.data[self.tail - 1];
        self.tail = self.tail - 1;
        assert(self.data@.take(self.tail as int) =~= old(self).data@.take(
            old(self).tail as int,
        ).drop_last());
        Some(item)
    }
}

impl<const SIZE: usize, T: Copy> Queue<T> for Buffer<SIZE, T> {
    /// When the buffer is full the item is discarded.
    fn enqueue(&mut self, item: T)
        ensures
            final(self).items() == keep_if_room(old(self).items(), item, SIZE as nat),
            old(self).tail == SIZE ==> *final(self) == *old(self),
            old(self).tail < SIZE ==> final(self).tail == old(self).tail + 1 && final(self).data@
                == old(self).data@.update(old(self).tail as int, item),
    {
        if self.tail == SIZE {
            return;
        }
        self.data[self.tail] = item;
        self.tail = self.tail + 1;
        assert(self.data@.take(self.tail as int) =~= old(self).data@.take(
            old(self).tail as int,
        ).push(item));
    }

    /// Each held item after the first moves one slot down, and the slot of
    /// the last held one takes the slot after it, when there is one; the
    /// slots past the held items keep their values.
    fn dequeue(&mut self) -> (r: Option<T>)
        ensures
            old(self).tail == 0 ==> *final(self) == *old(self),
            old(self).tail > 0 ==> final(self).tail == old(self).tail - 1 && (forall|k: int|
                0 <= k < old(self).tail ==> #[trigger] final(self).data@[k] == if k + 1 < SIZE {
                    old(self).data@[k + 1]
                } else {
                    old(self).data@[k]
                }) && (forall|k: int|
                old(self).tail <= k < SIZE ==> #[trigger] final(self).data@[k] == old(self).data@[k]),
    {
        if self.tail == 0 {
            return None;
        }
        let result = self.data[0];
        let mut idx: usize = 0;
        while idx + 1 < self.tail
            invariant
                self.tail == old(self).tail,
                0 < self.tail <= SIZE,
                idx < self.tail,
                self.data@.len() == SIZE,
                forall|k: int| 0 <= k < idx ==> #[trigger] self.data@[k] == old(self).data@[k + 1],
                forall|k: int| idx <= k < SIZE ==> #[trigger] self.data@[k] == old(self).data@[k],
            decreases self.tail - idx,
        {
            self.data[idx] = self.data[idx + 1];
            idx = idx + 1;
        }
        if self.tail < SIZE {
            self.data[self.tail - 1] = self.data[self.tail];
        }
        self.tail = self.tail - 1;
        assert(self.data@.take(self.tail as int) =~= old(self).data@.take(
            old(self).tail as int,
        ).drop_first());
        Some(result)
    }
}

impl<const SIZE: usize, T: Copy> Array<T> for Buffer<SIZE, T> {
    fn get(&self, index: usize) -> (r: Option<T>) {
        if index >= self.tail {
            None
        } else {
            Some(self.data[index])
        }
    }

    fn get_mut(&mut self, index: usize) -> (r: Option<&mut T>) {
        if index >= self.tail {
            None
        } else {
            Some(&mut self.data[index])
        }
    }

    fn size(&self) -> (n: usize) {
        self.tail
    }
}

/// Popping right after a push gives back the item pushed and the items
/// held before.
pub proof fn lemma_push_then_pop<T>(items: Seq<T>, item: T)
    ensures
        items.push(item).len() > 0,
        items.push(item).last() == item,
        items.push(item).drop_last() == items,
{
    assert(items.push(item).drop_last() =~= items);
}

/// A queue hands items out in the order they came in: enqueueing at the
/// back leaves the front as it was, and dequeueing what was enqueued into
/// an empty queue gives it back.
pub proof fn lemma_queue_order<T>(items: Seq<T>, item: T)
    ensures
        items.len() > 0 ==> items.push(item)[0] == items[0] && items.push(item).drop_first()
            == items.drop_first().push(item),
        items.len() == 0 ==> items.push(item)[0] == item && items.push(item).drop_first() == items,
{
    if items.len() > 0 {
        assert(items.push(item).drop_first() =~= items.drop_first().push(item));
    } else {
        assert(items.push(item).drop_first() =~= items);
    }
}

/// A buffer never holds more items than it has room for, and what it
/// holds is the front of its storage.
pub proof fn lemma_buffer_capacity<const SIZE: usize, T: Copy>(b: Buffer<SIZE, T>)
    requires
        b.well_formed(),
    ensures
        b.items().len() == b.tail,
        b.items().len() <= SIZE,
        forall|i: int| 0 <= i < b.tail ==> #[trigger] b.items()[i] == b.data@[i],
{
}

/// `items` with `item` added at the back when fewer than `cap` are held,
/// and unchanged otherwise.
pub open spec fn keep_if_room<T>(items: Seq<T>, item: T, cap: nat) -> Seq<T> {
    if items.len() < cap {
        items.push(item)
    } else {
        items
    }
}

/// What a buffer of capacity `cap` holding `items` holds after each of
/// `xs` is pushed (or enqueued) in turn.
pub open spec fn filled<T>(items: Seq<T>, xs: Seq<T>, cap: nat) -> Seq<T>
    decreases xs.len(),
{
    if xs.len() == 0 {
        items
    } else {
        filled(keep_if_room(items, xs[0], cap), xs.drop_first(), cap)
    }
}

/// Pushing a run of items into a buffer that holds at most `cap` keeps
/// them in order until it is full and drops the rest: it holds the first
/// `min(n, cap)` of them after the items it held.
pub proof fn lemma_buffer_fills<T>(items: Seq<T>, xs: Seq<T>, cap: nat)
    requires
        items.len() <= cap,
    ensures
        filled(items, xs, cap) == (items + xs).take(
            if items.len() + xs.len() <= cap { (items.len() + xs.len()) as int } else { cap as int },
        ),
    decreases xs.len(),
{
    if xs.len() == 0 {
        assert((items + xs).take(items.len() as int) =~= items);
    } else {
        let next = keep_if_room(items, xs[0], cap);
        lemma_buffer_fills(next, xs.drop_first(), cap);
        if items.len() < cap {
            assert(next + xs.drop_first() =~= items + xs);
        } else {
            assert((items + xs).take(cap as int) =~= items);
            assert((next + xs.drop_first()).take(cap as int) =~= items);
        }
    }
}

} // verus!
