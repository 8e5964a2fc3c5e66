use puzzled::color::hex_channels;
use puzzled::collection_id::CollectionId;
use puzzled::offset::{rounded_div, saturating_i32, saturating_u32};
use puzzled::random_puzzle::get_seed;
use puzzled::settings::ShowBoardGridLines;
use puzzled::shape::Shape;
use puzzled::text::decimal_string;

fn channel(v: u8) -> f32 {
    v as f32 / 255.0
}

#[test]
fn test_from_hex_r() {
    let (r, g, b) = hex_channels(0xFF0000);
    assert_eq!(channel(r), 1.0);
    assert_eq!(channel(g), 0.0);
    assert_eq!(channel(b), 0.0);
}

#[test]
fn test_from_hex_g() {
    let (r, g, b) = hex_channels(0x00FF00);
    assert_eq!(channel(r), 0.0);
    assert_eq!(channel(g), 1.0);
    assert_eq!(channel(b), 0.0);
}

#[test]
fn test_from_hex_b() {
    let (r, g, b) = hex_channels(0x0000FF);
    assert_eq!(channel(r), 0.0);
    assert_eq!(channel(g), 0.0);
    assert_eq!(channel(b), 1.0);
}

#[test]
fn test_from_hex_grey() {
    let (r, g, b) = hex_channels(0x808080);
    assert_eq!(channel(r), 128.0 / 255.0);
    assert_eq!(channel(g), 128.0 / 255.0);
    assert_eq!(channel(b), 128.0 / 255.0);
}

#[test]
fn hex_channels_of_a_palette_color() {
    assert_eq!(hex_channels(0x3584e4), (0x35, 0x84, 0xe4));
    assert_eq!(hex_channels(0xFF123456), (0x12, 0x34, 0x56));
}

#[test]
fn decimal_strings() {
    assert_eq!(decimal_string(0), "0");
    assert_eq!(decimal_string(7), "7");
    assert_eq!(decimal_string(1234), "1234");
    assert_eq!(decimal_string(u64::MAX), "18446744073709551615");
}

#[test]
fn rounding_division_rounds_half_away_from_zero() {
    assert_eq!(rounded_div(25, 10), 3);
    assert_eq!(rounded_div(24, 10), 2);
    assert_eq!(rounded_div(-25, 10), -3);
    assert_eq!(rounded_div(-24, 10), -2);
    assert_eq!(rounded_div(0, 7), 0);
}

#[test]
fn rounding_division_by_zero_saturates() {
    assert_eq!(rounded_div(5, 0), i32::MAX);
    assert_eq!(rounded_div(-5, 0), i32::MIN);
    assert_eq!(rounded_div(0, 0), 0);
}

#[test]
fn saturating_conversions() {
    assert_eq!(saturating_i32(i64::MAX), i32::MAX);
    assert_eq!(saturating_i32(i64::MIN), i32::MIN);
    assert_eq!(saturating_i32(-12), -12);
    assert_eq!(saturating_u32(-1), 0);
    assert_eq!(saturating_u32(1 << 40), u32::MAX);
    assert_eq!(saturating_u32(99), 99);
}

#[test]
fn collection_ids_round_trip() {
    assert_eq!(CollectionId::Core(0).to_value(), 0);
    assert_eq!(CollectionId::Core(5).to_value(), 5);
    assert_eq!(CollectionId::Community(0).to_value(), -1);
    assert_eq!(CollectionId::Community(3).to_value(), -4);
    assert_eq!(CollectionId::from_value(5), CollectionId::Core(5));
    assert_eq!(CollectionId::from_value(-4), CollectionId::Community(3));
    assert_eq!(CollectionId::from_value(i32::MIN), CollectionId::Community(i32::MAX as usize));
    for id in [CollectionId::Core(9), CollectionId::Community(9)] {
        assert_eq!(CollectionId::from_value(id.to_value()), id);
    }
    for v in [-100, -1, 0, 1, 100] {
        assert_eq!(CollectionId::from_value(v).to_value(), v);
    }
}

#[test]
fn grid_lines_setting_key() {
    assert_eq!(ShowBoardGridLines.key(), "show-board-grid-lines");
}

#[test]
fn shapes_store_their_cells() {
    let mut s = Shape::new(3, 2);
    assert_eq!(s.dim(), (3, 2));
    assert!(!s.get(2, 1));
    s.set(2, 1, true);
    assert!(s.get(2, 1));
    assert!(!s.get(1, 1));
    let copy = s.duplicate();
    assert!(copy.equals(&s));
    let mut other = s.duplicate();
    other.set(0, 0, true);
    assert!(!other.equals(&s));
    assert!(!Shape::new(2, 3).equals(&Shape::new(3, 2)));
}

#[test]
fn seed_texts_give_their_hash() {
    assert_eq!(get_seed("my puzzle"), get_seed("my puzzle"));
    assert_ne!(get_seed("my puzzle"), get_seed("my puzzle!"));
    assert_ne!(get_seed("a"), get_seed("b"));
}
