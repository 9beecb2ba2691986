use hexagon::pixel_engine::color::{rgb, Color};

#[test]
fn test_hsv() {
    let color = rgb(0, 0, 128);
    assert_eq!(color.b, 128);
}

#[test]
fn color_words() {
    assert_eq!(rgb(0x12, 0x34, 0x56).as_hex(), 0x123456);
    assert_eq!(rgb(255, 0, 0).as_hex(), 0xFF0000);
    assert_eq!(Color::blank().as_hex(), 0xFFFFFF);
    assert_eq!(Color::blank(), rgb(255, 255, 255));
}
