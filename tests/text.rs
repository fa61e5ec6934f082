use crisscross::{Precision, SignedTilePosition, TilePosition, TICKS_PER_UNIT};

fn ticks(v: f64) -> i64 {
    (v * TICKS_PER_UNIT as f64).round() as i64
}

#[test]
fn tile_position_fixture_text() {
    let p = TilePosition::new(1, 4, ticks(0.5), ticks(0.1));
    assert_eq!(p.to_text(Precision::Test), "((1, 0.500), (4, 0.100)).into()");
    let q = TilePosition::new(12, 0, ticks(0.12345), ticks(0.9996));
    assert_eq!(q.to_text(Precision::Test), "((12, 0.123), (0, 1.000)).into()");
}

#[test]
fn tile_position_labelled_text() {
    let p = TilePosition::new(1, 4, ticks(0.5), ticks(2.25));
    assert_eq!(
        p.to_text(Precision::Production),
        "TilePosition { x: 1, rel_x: 0.50000000, y: 4, rel_y: 2.25000000 }"
    );
}

#[test]
fn signed_tile_position_text() {
    let p = SignedTilePosition::new(0, -3, ticks(-0.5), ticks(0.1));
    assert_eq!(p.to_text(Precision::Test), "((0, -0.500), (-3, 0.100)).into()");
    assert_eq!(
        p.to_text(Precision::Production),
        "SignedTilePosition { x: 0, rel_x: -0.50000000, y: -3, rel_y: 0.10000000 }"
    );
    let tiny = SignedTilePosition::new(-10, 7, ticks(-0.0004), 1);
    assert_eq!(tiny.to_text(Precision::Test), "((-10, 0.000), (7, 0.000)).into()");
    assert_eq!(
        tiny.to_text(Precision::Production),
        "SignedTilePosition { x: -10, rel_x: -0.00040000, y: 7, rel_y: 0.00000001 }"
    );
}
