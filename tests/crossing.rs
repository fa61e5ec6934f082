use crisscross::{find_crossing, Bracket, SearchStatus, TilePosition, WorldCoords, TICKS_PER_UNIT};

fn ticks(v: f64) -> i64 {
    (v * TICKS_PER_UNIT as f64).round() as i64
}

fn inside_ten_by_ten(p: TilePosition) -> bool {
    p.x < 10 && p.y < 10
}

#[test]
fn crossing_converges_on_region_edge() {
    let start = TilePosition::new(9, 5, ticks(0.5), ticks(0.5));
    let end = TilePosition::new(10, 5, ticks(0.5), ticks(0.5));
    let eps = (ticks(0.001) - 1) as u128;
    let r = find_crossing(start, end, TICKS_PER_UNIT, eps, 30, inside_ten_by_ten);
    assert_eq!(r.status, SearchStatus::Converged);
    assert!(r.iterations <= 30);
    assert!(r.width < ticks(0.001) as u128);
    let valid = r.crossing.valid.unwrap();
    let invalid = r.crossing.invalid.unwrap();
    assert_eq!(valid.x, 9);
    assert_eq!(invalid.x, 10);
    assert!(valid.rel_x >= ticks(0.999));
    assert!(invalid.rel_x < ticks(0.001));
    assert_eq!(valid.y, 5);
    assert_eq!(valid.rel_y, ticks(0.5));
}

#[test]
fn crossing_from_centre_of_region() {
    let start = TilePosition::new(5, 5, 0, 0);
    let end = TilePosition::new(15, 12, 0, 0);
    let r = find_crossing(start, end, TICKS_PER_UNIT, 100, 64, inside_ten_by_ten);
    assert_eq!(r.status, SearchStatus::Converged);
    assert!(r.width <= 100);
    assert!(inside_ten_by_ten(r.crossing.valid.unwrap()));
    assert!(!inside_ten_by_ten(r.crossing.invalid.unwrap()));
}

#[test]
fn crossing_reports_iteration_cap() {
    let start = TilePosition::new(9, 5, ticks(0.5), 0);
    let end = TilePosition::new(10, 5, ticks(0.5), 0);
    let r = find_crossing(start, end, TICKS_PER_UNIT, 1, 4, inside_ten_by_ten);
    assert_eq!(r.status, SearchStatus::IterationCapReached);
    assert_eq!(r.iterations, 4);
    assert_eq!(r.width, (TICKS_PER_UNIT / 16) as u128);
}

#[test]
fn crossing_not_bracketed() {
    let a = TilePosition::new(1, 1, 0, 0);
    let b = TilePosition::new(2, 2, 0, 0);
    let both_valid = find_crossing(a, b, TICKS_PER_UNIT, 10, 30, inside_ten_by_ten);
    assert_eq!(both_valid.status, SearchStatus::NotBracketed);
    assert_eq!(both_valid.iterations, 0);
    assert_eq!(both_valid.crossing.valid, Some(a));
    assert_eq!(both_valid.crossing.invalid, None);

    let c = TilePosition::new(11, 1, 0, 0);
    let d = TilePosition::new(12, 2, 0, 0);
    let both_invalid = find_crossing(c, d, TICKS_PER_UNIT, 10, 30, inside_ten_by_ten);
    assert_eq!(both_invalid.status, SearchStatus::NotBracketed);
    assert_eq!(both_invalid.crossing.valid, None);
    assert_eq!(both_invalid.crossing.invalid, Some(d));
}

#[test]
fn bracket_halves_each_step() {
    let b = Bracket { valid: WorldCoords::new(0, 0), invalid: WorldCoords::new(7, -3) };
    assert_eq!(b.width(), 7);
    assert_eq!(b.midpoint(), WorldCoords::new(3, -1));
    let up = b.narrowed(true);
    assert_eq!(up, Bracket { valid: WorldCoords::new(3, -1), invalid: WorldCoords::new(7, -3) });
    assert_eq!(up.width(), 4);
    let down = b.narrowed(false);
    assert_eq!(down.width(), 3);
}
