use hexagon::datastructures::{Array, Vector};
use hexagon::strings::{contains, index_of};
use hexagon::system::strings::StringBuffer;

fn vecs_eq(left: Vector<u8>, right: Vector<u8>) {
    assert_eq!(left.size(), right.size());
    for idx in 0..left.size() {
        assert_eq!(Array::get(&left, idx), Array::get(&right, idx));
    }
}

fn text(bytes: &[u8]) -> Vector<u8> {
    Vector::from_slice(bytes)
}

#[test]
fn strings_test_str_contains() {
    assert_eq!(text(b"WIFI DISCONNECT").contains(text(b"WIFI GOT IP")), false);
    assert_eq!(text(b"hello world").contains(text(b"wo")), true);
    assert_eq!(text(b"hello world").contains(text(b"woldz")), false);
    assert_eq!(text(b"hello world").contains(text(b"")), false);
    assert_eq!(text(b"").contains(text(b"woldz")), false);
    assert_eq!(text(b" ").contains(text(b"woldz")), false);
    assert_eq!(text(b"     ").contains(text(b"woldz")), false);

    assert_eq!(contains(&text(b"WIFI DISCONNECT"), &text(b"WIFI GOT IP")), false);
    assert_eq!(contains(&text(b"hello world"), &text(b"wo")), true);
    assert_eq!(contains(&text(b"hello world"), &text(b"woldz")), false);
    assert_eq!(contains(&text(b"hello world"), &text(b"")), false);
    assert_eq!(contains(&text(b""), &text(b"woldz")), false);
    assert_eq!(contains(&text(b" "), &text(b"woldz")), false);
    assert_eq!(contains(&text(b"     "), &text(b"woldz")), false);
}

#[test]
fn strings_test_index_of() {
    assert_eq!(text(b"+CIPSTATUS:23").index_of(text(b":")), Some(10));
    assert_eq!(text(b"+CIPSTATUS:23").index_of(text(b"+")), Some(0));
    assert_eq!(text(b"+CIPSTATUS:23").index_of(text(b"234")), None);

    assert_eq!(index_of(&text(b"+CIPSTATUS:23"), &text(b":")), Some(10));
    assert_eq!(index_of(&text(b"+CIPSTATUS:23"), &text(b"+")), Some(0));
    assert_eq!(index_of(&text(b"+CIPSTATUS:23"), &text(b"234")), None);
}

#[test]
fn test_split() {
    let words = text(b"Hello\nHow\nAre\nYou?").split(b'\n');
    assert_eq!(words.size(), 4);
    vecs_eq(words.get(0).unwrap(), text(b"Hello"));
    vecs_eq(words.get(3).unwrap(), text(b"You?"));
}

#[test]
fn test_string_comparison() {
    assert_eq!(text(b"hello") == text(b"hello"), true);
    assert_eq!(text(b"hello there") > text(b"hello"), true);
    assert_eq!(text(b"howdy") > text(b"hello"), true);
    assert_eq!(text(b"god") < text(b"zomg"), true);
}

#[test]
fn concat_joins_two_strings() {
    let joined = hexagon::strings::concat(b"ab", b"cd");
    vecs_eq(joined, text(b"abcd"));
}

#[test]
fn index_of_does_not_look_at_the_last_start() {
    // A match that could only start at the last possible position is not
    // found.
    assert_eq!(index_of(&text(b"abc"), &text(b"c")), None);
    assert_eq!(text(b"abc").index_of(text(b"c")), None);
    assert_eq!(index_of(&text(b"abcd"), &text(b"bc")), Some(1));
}
