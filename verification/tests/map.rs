use hexagon::datastructures::Array;
use hexagon::system::map::{BTree, BTreeMap, MapNode, OrderedMap};

#[test]
fn test_map_node() {
    let mut node = MapNode::new(100, 50);
    assert_eq!(node.size(), 1);

    node.insert(125, 25);
    assert_eq!(node.size(), 2);

    node.insert(80, 15);
    assert_eq!(node.size(), 3);

    assert_eq!(node.get(80).unwrap(), 15);
    assert_eq!(node.get(125).unwrap(), 25);
    assert_eq!(node.get(100).unwrap(), 50);
    assert_eq!(node.get(374), None);
}

#[test]
fn test_btree_map() {
    let mut map = BTreeMap::<u8, u8>::new();
    map.insert(10, 1);
    map.insert(15, 2);
    map.insert(17, 3);

    assert_eq!(map.size(), 3);
    assert_eq!(map.get(10), Some(1));
    assert_eq!(map.get(15), Some(2));
}

#[test]
fn test_btree_keys() {
    let mut map = BTreeMap::new();
    map.insert(10u8, 1u8);
    map.insert(20u8, 2u8);
    map.insert(30u8, 3u8);

    let keys = map.keys();
    assert_eq!(keys.size(), 3);
    assert_eq!(Array::get(&keys, 0).unwrap(), 10u8);
    assert_eq!(Array::get(&keys, 1).unwrap(), 20u8);
    assert_eq!(Array::get(&keys, 2).unwrap(), 30u8);
}

#[test]
fn map_insert_keeps_first_value_and_remove_does_nothing() {
    let mut map = BTreeMap::<u32, u32>::new();
    assert_eq!(map.size(), 0);
    assert_eq!(map.get(5), None);
    map.insert(5, 50);
    map.insert(5, 99);
    assert_eq!(map.size(), 1);
    assert_eq!(map.get(5), Some(50));
    map.remove(5);
    assert_eq!(map.get(5), Some(50));
}

#[test]
fn map_keys_come_out_root_first() {
    let mut map = BTreeMap::<u16, u8>::new();
    map.insert(30, 3);
    map.insert(10, 1);
    map.insert(20, 2);
    let keys = map.keys();
    assert_eq!(Array::get(&keys, 0), Some(30));
    assert_eq!(Array::get(&keys, 1), Some(10));
    assert_eq!(Array::get(&keys, 2), Some(20));
}

#[test]
fn map_node_values_change_in_place() {
    let mut node = MapNode::new(100u8, 50u8);
    node.insert(125, 25);
    node.insert(80, 15);
    match node.get_mut(125) {
        Some(value) => *value = 99,
        None => panic!("125 is present"),
    }
    assert_eq!(node.get(125), Some(99));
    assert_eq!(node.get(80), Some(15));
    assert!(node.get_mut(7).is_none());
    assert_eq!(node.size(), 3);
}
