use hexagon::datastructures::{Array, Buffer, Queue, Stack, Vector};

#[derive(Clone)]
pub struct ShadowVec {
    pub items: Vector<u8>,
    pub time: usize,
}

#[test]
fn advanced_copy() {
    let shadow = ShadowVec {
        items: Vector::from_slice(&[1, 2, 3, 4, 5]),
        time: 1337,
    };

    let next = shadow.clone();
    assert_eq!(next.items.size(), 5);
    assert_eq!(next.time, 1337);
}

#[test]
fn stack() {
    let mut list = Vector::new();
    list.push(32);
    list.push(64);
    list.push(128);
    list.push(256);

    assert_eq!(list.size(), 4);
    assert_eq!(list.pop(), Some(256));
    assert_eq!(list.size(), 3);
    assert_eq!(list.pop(), Some(128));
    assert_eq!(list.size(), 2);
    assert_eq!(list.pop(), Some(64));
    assert_eq!(list.size(), 1);
    assert_eq!(list.pop(), Some(32));
    assert_eq!(list.size(), 0);
    assert_eq!(list.pop(), None);
}

#[test]
fn stack_get() {
    let mut list = Vector::<u32>::new();
    list.enqueue(32);
    list.enqueue(64);
    list.enqueue(128);
    list.enqueue(256);
    list.enqueue(512);

    assert_eq!(Array::get(&list, 0), Some(32));
    assert_eq!(Array::get(&list, 1), Some(64));
    assert_eq!(Array::get(&list, 3), Some(256));
    assert_eq!(Array::get(&list, 2), Some(128));
    assert_eq!(Array::get(&list, 4), Some(512));
    assert_eq!(Array::get(&list, 5), None);
    assert_eq!(Array::get(&list, 100), None);

    let list2 = Vector::<i32>::new();
    assert_eq!(Array::get(&list2, 0), None);
    assert_eq!(Array::get(&list2, 100), None);
}

#[test]
fn test_stack_clone() {
    let list = Vector::from_slice(&[32, 64, 128, 256, 512]);
    let mut cloned_list = list.clone();
    assert_eq!(cloned_list.pop(), Some(512));
    assert_eq!(cloned_list.pop(), Some(256));
    assert_eq!(cloned_list.pop(), Some(128));
    assert_eq!(cloned_list.pop(), Some(64));
    assert_eq!(cloned_list.pop(), Some(32));
    assert_eq!(cloned_list.pop(), None);

    cloned_list.join(Vector::from_slice(&[32, 64]));
    let mut list3 = cloned_list.clone();
    list3.join(Vector::from_slice(&[128]));
    assert_eq!(Array::get(&list3, 0), Some(32));
}

#[test]
fn test_vector_queue() {
    let mut list = Vector::new();
    list.enqueue(32);
    list.enqueue(64);
    list.enqueue(128);

    assert_eq!(list.dequeue(), Some(32));
    assert_eq!(list.dequeue(), Some(64));
    assert_eq!(list.dequeue(), Some(128));
    assert_eq!(list.dequeue(), None);
}

#[test]
fn test_vector_join() {
    let mut list1 = Vector::from_slice(&[32, 64, 128]);
    let list2 = Vector::from_slice(&[256, 512]);

    list1.join(list2);

    assert_eq!(list1.pop(), Some(512));
    assert_eq!(list1.pop(), Some(256));
}

#[test]
fn buffer() {
    let mut buffer = Buffer::<10, u8>::new(0);
    buffer.enqueue(32);
    buffer.enqueue(64);
    buffer.enqueue(128);
    assert_eq!(buffer.dequeue(), Some(32));
    assert_eq!(buffer.dequeue(), Some(64));
    assert_eq!(buffer.dequeue(), Some(128));
    assert_eq!(buffer.dequeue(), None);

    buffer.enqueue(32);
    buffer.enqueue(64);
    buffer.push(128);
    assert_eq!(buffer.pop(), Some(128));
    assert_eq!(buffer.pop(), Some(64));
    assert_eq!(buffer.pop(), Some(32));
}

#[test]
fn buffer_drops_items_when_full() {
    let mut buffer = Buffer::<3, u8>::new(0);
    buffer.push(1);
    buffer.push(2);
    buffer.push(3);
    buffer.push(4);
    assert_eq!(buffer.size(), 3);
    assert_eq!(buffer.pop(), Some(3));
    assert_eq!(buffer.as_array(), &[1, 2, 3]);
    buffer.clear();
    assert_eq!(buffer.size(), 0);
    assert_eq!(buffer.pop(), None);
}

#[test]
fn stack_pop_undoes_push() {
    let mut list = Vector::from_slice(&[7u8, 8, 9]);
    list.push(10);
    assert_eq!(list.pop(), Some(10));
    assert_eq!(list.size(), 3);
    assert_eq!(Array::get(&list, 2), Some(9));
}

#[test]
fn queue_is_first_in_first_out() {
    let mut list = Vector::new();
    for i in 0..5u32 {
        list.enqueue(i);
    }
    for i in 0..5u32 {
        assert_eq!(list.dequeue(), Some(i));
    }
    assert_eq!(list.dequeue(), None);
}

#[test]
fn vector_substr_and_clear() {
    let list = Vector::from_slice(&[1u8, 2, 3, 4, 5]);
    let part = list.substr(1, 3).unwrap();
    assert_eq!(part.size(), 3);
    assert_eq!(Array::get(&part, 0), Some(2));
    assert_eq!(Array::get(&part, 2), Some(4));
    assert!(list.substr(3, 3).is_none());
    let mut other = list.clone();
    other.clear();
    assert_eq!(other.size(), 0);
}

#[test]
fn full_buffer_dequeues_in_order() {
    let mut queue = Buffer::<3, u8>::new(0);
    queue.enqueue(1);
    queue.enqueue(2);
    queue.enqueue(3);
    queue.enqueue(4);
    assert_eq!(queue.size(), 3);
    assert_eq!(queue.dequeue(), Some(1));
    assert_eq!(queue.dequeue(), Some(2));
    queue.enqueue(5);
    assert_eq!(queue.dequeue(), Some(3));
    assert_eq!(queue.dequeue(), Some(5));
    assert_eq!(queue.dequeue(), None);
}

#[test]
fn pushes_fill_then_drop() {
    let mut stack = Buffer::<2, u32>::new(0);
    for x in [7u32, 8, 9, 10] {
        stack.push(x);
    }
    assert_eq!(stack.size(), 2);
    assert_eq!(stack.get(0), Some(7));
    assert_eq!(stack.get(1), Some(8));
    assert_eq!(stack.get(2), None);
}

#[test]
fn dequeue_shifts_storage_down() {
    let mut queue = Buffer::<4, u8>::new(9);
    queue.enqueue(1);
    queue.enqueue(2);
    queue.enqueue(3);
    assert_eq!(queue.data, [1, 2, 3, 9]);
    assert_eq!(queue.dequeue(), Some(1));
    assert_eq!(queue.data, [2, 3, 9, 9]);
    assert_eq!(queue.size(), 2);
}
