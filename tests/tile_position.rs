use crisscross::{
    round, PositionError, Precision, SignedTilePosition, TilePosition, WorldCoords, TICKS_PER_UNIT,
};

/// A length in world units as a tick count.
fn ticks(v: f64) -> i64 {
    (v * TICKS_PER_UNIT as f64).round() as i64
}

#[test]
fn subtract() {
    assert_eq!(
        TilePosition::new(2, 3, ticks(0.0), ticks(0.0))
            .subtract(&TilePosition::new(1, 4, ticks(0.0), ticks(0.0))),
        SignedTilePosition::new(1, -1, ticks(0.0), ticks(0.0))
    );

    assert_eq!(
        TilePosition::new(1, 1, ticks(0.5), ticks(0.2))
            .subtract(&TilePosition::new(1, 4, ticks(1.0), ticks(0.1))),
        SignedTilePosition::new(0, -3, ticks(-0.5), ticks(0.1))
    );
}

#[test]
fn distance() {
    let tp1: TilePosition = ((1, ticks(0.0)), (3, ticks(0.3))).into();
    let tp2: TilePosition = ((4, ticks(0.1)), (8, ticks(0.8))).into();
    let d = tp1.distance_global(&tp2, TICKS_PER_UNIT) as i64;
    assert_eq!(round(d, 3), ticks(6.313));
}

#[test]
fn distance_global_exact_ticks() {
    let a = TilePosition::new(0, 0, 0, 0);
    let b = TilePosition::new(3, 4, 0, 0);
    // a 3-4-5 triangle with two-tick tiles
    assert_eq!(a.distance_global(&b, 2), 10);
    assert_eq!(b.distance_global(&a, 2), 10);
    // sqrt(2) ticks rounds to one tick, sqrt(3) to two
    let c = TilePosition::new(0, 0, 1, 1);
    assert_eq!(a.distance_global(&c, 5), 1);
    let d = WorldCoords::new(0, 0).distance(&WorldCoords::new(1, 1));
    assert_eq!(d, 1);
    assert_eq!(WorldCoords::new(0, 0).distance(&WorldCoords::new(2, 2)), 3);
}

#[test]
fn distance_global_is_symmetric() {
    let a = TilePosition::new(7, 2, ticks(0.25), ticks(0.75));
    let b = TilePosition::new(1, 9, ticks(0.5), ticks(0.125));
    let s = ticks(2.0);
    assert_eq!(a.distance_global(&b, s), b.distance_global(&a, s));
}

#[test]
fn distance_relative_in_tile_units() {
    let a = TilePosition::new(1, 3, 0, ticks(0.3));
    let b = TilePosition::new(4, 8, ticks(0.1), ticks(0.8));
    let d = a.distance_relative(&b) as i64;
    assert_eq!(round(d, 3), ticks(6.313));
    assert_eq!(a.distance_relative(&a), 0);
}

#[test]
fn same_tile_ignores_offsets() {
    let a = TilePosition::new(3, 5, ticks(0.1), ticks(0.9));
    let b = TilePosition::new(3, 5, ticks(0.7), ticks(0.2));
    let c = TilePosition::new(3, 6, ticks(0.1), ticks(0.9));
    assert!(a.is_same_tile(&a));
    assert!(a.is_same_tile(&b));
    assert!(!a.is_same_tile(&c));
}

#[test]
fn world_round_trip() {
    let s = ticks(1.5);
    let p = TilePosition::new(12, 40, ticks(0.75), ticks(1.25));
    let w = p.to_world_coords(s);
    assert_eq!(w, WorldCoords::new(12 * s as i128 + ticks(0.75) as i128, 40 * s as i128 + ticks(1.25) as i128));
    assert_eq!(w.to_tile_position(s), Ok(p));
}

#[test]
fn world_to_tile_uses_floor_division() {
    let s = 10;
    let w = WorldCoords::new(-3, 25);
    let stp = w.to_signed_tile_position(s);
    assert_eq!(stp, SignedTilePosition::new(-1, 2, 7, 5));
    assert_eq!(w.to_tile_position(s), Err(PositionError::OffGrid));
    assert_eq!(
        WorldCoords::new(0, 0x1_0000_0000 * 10).to_tile_position(s),
        Err(PositionError::TileIndexOverflow)
    );
    assert_eq!(
        WorldCoords::new(29, 0).to_tile_position(s),
        Ok(TilePosition::new(2, 0, 9, 0))
    );
}

#[test]
fn subtract_then_add_restores() {
    let s = ticks(1.0);
    let a = TilePosition::new(2, 9, ticks(0.4), ticks(0.9));
    let b = TilePosition::new(5, 1, ticks(0.8), ticks(0.1));
    let delta = a.subtract(&b);
    let back = b.add(&delta);
    assert_eq!(back, SignedTilePosition::from(a));
    let n = back.normalized(s).unwrap();
    assert_eq!(TilePosition::try_from(n), Ok(a));
}

#[test]
fn normalized_folds_overflow() {
    let s = ticks(1.0);
    let p = SignedTilePosition::new(0, -3, ticks(-0.5), ticks(1.1));
    assert_eq!(p.normalized(s), Ok(SignedTilePosition::new(-1, -2, ticks(0.5), ticks(0.1))));
    let q = SignedTilePosition::new(4, 4, ticks(-1.5), ticks(0.0));
    assert_eq!(q.normalized(s), Ok(SignedTilePosition::new(2, 4, ticks(0.5), 0)));
}

#[test]
fn normalized_refuses_offsets_out_of_band() {
    let s = ticks(1.0);
    let p = SignedTilePosition::new(3, 3, ticks(2.0), 0);
    assert_eq!(p.normalized(s), Err(PositionError::OffsetOutOfBand));
    let q = SignedTilePosition::new(3, 3, 0, ticks(-2.0));
    assert_eq!(q.normalized(s), Err(PositionError::OffsetOutOfBand));
    let r = SignedTilePosition::new(3, 3, ticks(1.99), ticks(-1.99));
    assert_eq!(r.normalized(s), Ok(SignedTilePosition::new(4, 1, ticks(0.99), ticks(0.01))));
}

#[test]
fn off_grid_boundary() {
    let neg = SignedTilePosition::new(0, 0, ticks(-0.1), ticks(0.0));
    assert_eq!(TilePosition::try_from(neg), Err(PositionError::OffGrid));
    let pos = SignedTilePosition::new(0, 0, ticks(0.1), ticks(0.0));
    assert_eq!(TilePosition::try_from(pos), Ok(TilePosition::new(0, 0, ticks(0.1), 0)));
    let negative_tile = SignedTilePosition::new(-1, 0, ticks(1.5), 0);
    assert_eq!(TilePosition::try_from(negative_tile), Err(PositionError::OffGrid));
    let too_far = SignedTilePosition::new(0x1_0000_0000, 0, 0, 0);
    assert_eq!(TilePosition::try_from(too_far), Err(PositionError::TileIndexOverflow));
}

#[test]
fn round_half_away_from_zero() {
    assert_eq!(round(ticks(6.3135), 3), ticks(6.314));
    assert_eq!(round(ticks(6.31349), 3), ticks(6.313));
    assert_eq!(round(ticks(-0.0005), 3), ticks(-0.001));
    assert_eq!(round(ticks(-0.00049), 3), 0);
    assert_eq!(round(123_456_789, 8), 123_456_789);
    assert_eq!(round(123_456_789, 0), 100_000_000);
    assert_eq!(round(150_000_000, 0), 200_000_000);
}

#[test]
fn precision_regimes() {
    assert_eq!(Precision::Test.digits(), 3);
    assert_eq!(Precision::Production.digits(), 8);
    let t = TilePosition::with_precision(1, 2, ticks(0.12345), ticks(0.9996), Precision::Test);
    assert_eq!(t, TilePosition::new(1, 2, ticks(0.123), ticks(1.0)));
    let p = TilePosition::with_precision(1, 2, ticks(0.12345), 7, Precision::Production);
    assert_eq!(p, TilePosition::new(1, 2, ticks(0.12345), 7));
    let s = SignedTilePosition::with_precision(-1, 2, ticks(-0.0004), ticks(0.0005), Precision::Test);
    assert_eq!(s, SignedTilePosition::new(-1, 2, 0, ticks(0.001)));
}
