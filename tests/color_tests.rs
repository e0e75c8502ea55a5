use diorama::Color;

#[test]
fn to_hex_packs_channels() {
    assert_eq!(Color::new(0x12, 0x34, 0x56).to_hex(), 0x123456);
    assert_eq!(Color::new(255, 255, 255).to_hex(), 0xffffff);
    assert_eq!(Color::black().to_hex(), 0);
}

#[test]
fn from_hex_unpacks_low_bits() {
    assert_eq!(Color::from_hex(0x3377ff), Color::new(0x33, 0x77, 0xff));
    assert_eq!(Color::from_hex(0xab123456), Color::new(0x12, 0x34, 0x56));
}

#[test]
fn hex_round_trip() {
    for c in [Color::new(1, 2, 3), Color::new(255, 0, 128), Color::new(0, 0, 26)] {
        assert_eq!(Color::from_hex(c.to_hex()), c);
    }
}

#[test]
fn average4_floors_each_channel() {
    let a = Color::new(0, 10, 255);
    let b = Color::new(1, 10, 255);
    let c = Color::new(2, 11, 255);
    let d = Color::new(4, 10, 254);
    assert_eq!(Color::average4(a, b, c, d), Color::new(1, 10, 254));
}
