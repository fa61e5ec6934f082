use crate::precision::{round, rounded_to_digits, Precision, TICKS_PER_UNIT};
use crate::world::{hypot, rounded_root, WorldCoords};
use vstd::arithmetic::div_mod::{lemma_fundamental_div_mod, lemma_fundamental_div_mod_converse};
use vstd::prelude::*;

verus! {

/// Why a position could not be produced.
#[derive(Clone, Copy, Debug, PartialEq, Eq, Structural)]
pub enum PositionError {
    /// The effective coordinate is negative on an axis: the point lies off the grid.
    OffGrid,
    /// A tile index does not fit the grid's unsigned index type.
    TileIndexOverflow,
    /// An offset lies outside `(-2 * tile_size, 2 * tile_size)`, more than one
    /// tile width of overflow.
    OffsetOutOfBand,
}

pub open spec fn fits_i64(v: int) -> bool {
    i64::MIN <= v <= i64::MAX
}

/// The world coordinate, in ticks, of an offset within a tile.
pub open spec fn world_axis(tile: int, rel: int, tile_size: int) -> int {
    tile * tile_size + rel
}

/// An offset that overflows its tile by at most one tile width.
pub open spec fn in_band(rel: int, tile_size: int) -> bool {
    -2 * tile_size < rel < 2 * tile_size
}

/// A grid cell and an offset, in ticks, from the cell's lower left corner.
/// Once normalized for a tile size, each offset lies in `[0, tile_size)`.
#[derive(Clone, Copy, Debug, PartialEq, Eq, Structural)]
pub struct TilePosition {
    pub x: u32,
    pub y: u32,
    pub rel_x: i64,
    pub rel_y: i64,
}

/// The signed counterpart of `TilePosition`: a delta between two positions, or
/// a position that may lie off the grid. Offsets may lie anywhere until
/// `normalized` is called.
#[derive(Clone, Copy, Debug, PartialEq, Eq, Structural)]
pub struct SignedTilePosition {
    pub x: i64,
    pub y: i64,
    pub rel_x: i64,
    pub rel_y: i64,
}

impl TilePosition {
    pub open spec fn is_normalized(self, tile_size: int) -> bool {
        &&& 0 <= self.rel_x < tile_size
        &&& 0 <= self.rel_y < tile_size
    }

    pub open spec fn world_x(self, tile_size: int) -> int {
        world_axis(self.x as int, self.rel_x as int, tile_size)
    }

    pub open spec fn world_y(self, tile_size: int) -> int {
        world_axis(self.y as int, self.rel_y as int, tile_size)
    }

    pub open spec fn world_spec(self, tile_size: int) -> WorldCoords {
        WorldCoords { x: self.world_x(tile_size) as i128, y: self.world_y(tile_size) as i128 }
    }

    pub open spec fn to_signed_spec(self) -> SignedTilePosition {
        SignedTilePosition {
            x: self.x as i64,
            y: self.y as i64,
            rel_x: self.rel_x,
            rel_y: self.rel_y,
        }
    }

    /// The coordinate on each axis in tiles, at tick resolution: the tile
    /// index plus the offset read as a fraction of a unit-sized tile.
    pub open spec fn axis_x(self) -> int {
        world_axis(self.x as int, self.rel_x as int, TICKS_PER_UNIT as int)
    }

    pub open spec fn axis_y(self) -> int {
        world_axis(self.y as int, self.rel_y as int, TICKS_PER_UNIT as int)
    }

    /// The squared distance in world space, in ticks squared.
    pub open spec fn squared_world_distance(self, other: TilePosition, tile_size: int) -> int {
        let dx = other.world_x(tile_size) - self.world_x(tile_size);
        let dy = other.world_y(tile_size) - self.world_y(tile_size);
        dx * dx + dy * dy
    }

    /// The squared distance in tile units, at tick resolution.
    pub open spec fn squared_relative_distance(self, other: TilePosition) -> int {
        let dx = other.axis_x() - self.axis_x();
        let dy = other.axis_y() - self.axis_y();
        dx * dx + dy * dy
    }

    pub open spec fn same_tile_spec(self, other: TilePosition) -> bool {
        self.x == other.x && self.y == other.y
    }

    pub open spec fn subtract_spec(self, other: TilePosition) -> SignedTilePosition {
        SignedTilePosition {
            x: (self.x - other.x) as i64,
            y: (self.y - other.y) as i64,
            rel_x: (self.rel_x - other.rel_x) as i64,
            rel_y: (self.rel_y - other.rel_y) as i64,
        }
    }

    pub open spec fn can_subtract(self, other: TilePosition) -> bool {
        fits_i64(self.rel_x - other.rel_x) && fits_i64(self.rel_y - other.rel_y)
    }

    pub open spec fn add_spec(self, delta: SignedTilePosition) -> SignedTilePosition {
        SignedTilePosition {
            x: (self.x + delta.x) as i64,
            y: (self.y + delta.y) as i64,
            rel_x: (self.rel_x + delta.rel_x) as i64,
            rel_y: (self.rel_y + delta.rel_y) as i64,
        }
    }

    pub open spec fn can_add(self, delta: SignedTilePosition) -> bool {
        &&& fits_i64(self.x + delta.x)
        &&& fits_i64(self.y + delta.y)
        &&& fits_i64(self.rel_x + delta.rel_x)
        &&& fits_i64(self.rel_y + delta.rel_y)
    }

    pub fn new(x: u32, y: u32, rel_x: i64, rel_y: i64) -> (r: TilePosition)
        ensures
            r == (TilePosition { x, y, rel_x, rel_y }),
    {
        TilePosition { x, y, rel_x, rel_y }
    }

    /// A position whose offsets are rounded to the digits that `precision`
    /// keeps, half away from zero.
    pub fn with_precision(x: u32, y: u32, rel_x: i64, rel_y: i64, precision: Precision) -> (r:
        TilePosition)
        requires
            fits_i64(rounded_to_digits(rel_x as int, precision.digits_spec())),
            fits_i64(rounded_to_digits(rel_y as int, precision.digits_spec())),
        ensures
            r.x == x,
            r.y == y,
            r.rel_x == rounded_to_digits(rel_x as int, precision.digits_spec()),
            r.rel_y == rounded_to_digits(rel_y as int, precision.digits_spec()),
    {
        let digits = precision.digits();
        TilePosition { x, y, rel_x: round(rel_x, digits), rel_y: round(rel_y, digits) }
    }

    /// The point in world space: `tile * tile_size + rel` on each axis.
    pub fn to_world_coords(&self, tile_size: i64) -> (r: WorldCoords)
        requires
            tile_size > 0,
        ensures
            r.x == self.world_x(tile_size as int),
            r.y == self.world_y(tile_size as int),
            r == self.world_spec(tile_size as int),
    {
        WorldCoords::from_tile_position(self, tile_size)
    }

    /// The Euclidean distance between the two points in world space, in ticks,
    /// rounded to the nearest tick. Correct however far apart the tiles are.
    pub fn distance_global(&self, other: &TilePosition, tile_size: i64) -> (r: u128)
        requires
            tile_size > 0,
            self.squared_world_distance(*other, tile_size as int) <= u128::MAX,
        ensures
            r == rounded_root(self.squared_world_distance(*other, tile_size as int)),
    {
        self.to_world_coords(tile_size).distance(&other.to_world_coords(tile_size))
    }

    /// The Euclidean distance in tile units, with ticks as the unit's
    /// fraction, rounded to the nearest tick. Meant for positions of one grid.
    pub fn distance_relative(&self, other: &TilePosition) -> (r: u128)
        requires
            self.squared_relative_distance(*other) <= u128::MAX,
        ensures
            r == rounded_root(self.squared_relative_distance(*other)),
    {
        let (dx, dy) = self.delta_to(other);
        hypot(dx, dy)
    }

    /// Whether both positions lie in the same tile; offsets are ignored.
    pub fn is_same_tile(&self, other: &TilePosition) -> (r: bool)
        ensures
            r == self.same_tile_spec(*other),
    {
        self.x == other.x && self.y == other.y
    }

    fn axes(&self) -> (r: (i128, i128))
        ensures
            r.0 == self.axis_x(),
            r.1 == self.axis_y(),
    {
        let w = self.to_world_coords(TICKS_PER_UNIT);
        (w.x, w.y)
    }

    fn delta_to(&self, target: &TilePosition) -> (r: (i128, i128))
        ensures
            r.0 == target.axis_x() - self.axis_x(),
            r.1 == target.axis_y() - self.axis_y(),
    {
        let (x1, y1) = self.axes();
        let (x2, y2) = target.axes();
        (x2 - x1, y2 - y1)
    }

    /// The delta from `other` to `self`. Tile indices widen to signed before
    /// they are subtracted; offsets subtract directly and are not normalized.
    pub fn subtract(&self, other: &TilePosition) -> (r: SignedTilePosition)
        requires
            self.can_subtract(*other),
        ensures
            r == self.subtract_spec(*other),
    {
        let dx = self.x as i64 - other.x as i64;
        let dy = self.y as i64 - other.y as i64;
        let rel_x = self.rel_x - other.rel_x;
        let rel_y = self.rel_y - other.rel_y;
        SignedTilePosition::new(dx, dy, rel_x, rel_y)
    }

    /// This position moved by `delta`. Tile indices widen to signed before
    /// they are added; offsets add directly and are not normalized.
    pub fn add(&self, delta: &SignedTilePosition) -> (r: SignedTilePosition)
        requires
            self.can_add(*delta),
        ensures
            r == self.add_spec(*delta),
    {
        let dx = self.x as i64 + delta.x;
        let dy = self.y as i64 + delta.y;
        let rel_x = self.rel_x + delta.rel_x;
        let rel_y = self.rel_y + delta.rel_y;
        SignedTilePosition::new(dx, dy, rel_x, rel_y)
    }
}

impl SignedTilePosition {
    pub open spec fn world_x(self, tile_size: int) -> int {
        world_axis(self.x as int, self.rel_x as int, tile_size)
    }

    pub open spec fn world_y(self, tile_size: int) -> int {
        world_axis(self.y as int, self.rel_y as int, tile_size)
    }

    pub open spec fn world_spec(self, tile_size: int) -> WorldCoords {
        WorldCoords { x: self.world_x(tile_size) as i128, y: self.world_y(tile_size) as i128 }
    }

    pub open spec fn normalized_spec(self, tile_size: int) -> Result<SignedTilePosition, PositionError> {
        if in_band(self.rel_x as int, tile_size) && in_band(self.rel_y as int, tile_size) {
            Ok(self.world_spec(tile_size).signed_tile_position_spec(tile_size))
        } else {
            Err(PositionError::OffsetOutOfBand)
        }
    }

    /// What narrowing to `TilePosition` gives: the effective coordinate, the
    /// tile index plus the offset in tile units, must not be negative.
    pub open spec fn to_tile_position_spec(self) -> Result<TilePosition, PositionError> {
        if self.x < 0 || self.y < 0 || world_axis(self.x as int, self.rel_x as int, TICKS_PER_UNIT as int) < 0
            || world_axis(self.y as int, self.rel_y as int, TICKS_PER_UNIT as int) < 0 {
            Err(PositionError::OffGrid)
        } else if self.x > u32::MAX || self.y > u32::MAX {
            Err(PositionError::TileIndexOverflow)
        } else {
            Ok(TilePosition { x: self.x as u32, y: self.y as u32, rel_x: self.rel_x, rel_y: self.rel_y })
        }
    }

    pub fn new(x: i64, y: i64, rel_x: i64, rel_y: i64) -> (r: SignedTilePosition)
        ensures
            r == (SignedTilePosition { x, y, rel_x, rel_y }),
    {
        SignedTilePosition { x, y, rel_x, rel_y }
    }

    /// A signed position whose offsets are rounded to the digits that
    /// `precision` keeps, half away from zero.
    pub fn with_precision(x: i64, y: i64, rel_x: i64, rel_y: i64, precision: Precision) -> (r:
        SignedTilePosition)
        requires
            fits_i64(rounded_to_digits(rel_x as int, precision.digits_spec())),
            fits_i64(rounded_to_digits(rel_y as int, precision.digits_spec())),
        ensures
            r.x == x,
            r.y == y,
            r.rel_x == rounded_to_digits(rel_x as int, precision.digits_spec()),
            r.rel_y == rounded_to_digits(rel_y as int, precision.digits_spec()),
    {
        let digits = precision.digits();
        SignedTilePosition { x, y, rel_x: round(rel_x, digits), rel_y: round(rel_y, digits) }
    }

    /// The point in world space: `tile * tile_size + rel` on each axis.
    pub fn to_world_coords(&self, tile_size: i64) -> (r: WorldCoords)
        requires
            tile_size > 0,
        ensures
            r.x == self.world_x(tile_size as int),
            r.y == self.world_y(tile_size as int),
            r == self.world_spec(tile_size as int),
    {
        WorldCoords::from_signed_tile_position(self, tile_size)
    }

    /// Folds offset overflow into the tile index through the world point, so
    /// that each offset lies in `[0, tile_size)` and the point is unchanged.
    /// An offset outside `(-2 * tile_size, 2 * tile_size)` is refused.
    pub fn normalized(self, tile_size: i64) -> (r: Result<SignedTilePosition, PositionError>)
        requires
            tile_size > 0,
            i64::MIN + 2 <= self.x < i64::MAX,
            i64::MIN + 2 <= self.y < i64::MAX,
        ensures
            r == self.normalized_spec(tile_size as int),
            r is Err <==> !(in_band(self.rel_x as int, tile_size as int) && in_band(
                self.rel_y as int,
                tile_size as int,
            )),
            r matches Ok(n) ==> {
                &&& n.world_x(tile_size as int) == self.world_x(tile_size as int)
                &&& n.world_y(tile_size as int) == self.world_y(tile_size as int)
                &&& 0 <= n.rel_x < tile_size
                &&& 0 <= n.rel_y < tile_size
            },
    {
        if !(-2 * (tile_size as i128) < self.rel_x as i128 && (self.rel_x as i128) < 2 * (tile_size as i128))
            || !(-2 * (tile_size as i128) < self.rel_y as i128 && (self.rel_y as i128) < 2
                * (tile_size as i128)) {
            return Err(PositionError::OffsetOutOfBand);
        }
        let w = self.to_world_coords(tile_size);
        proof {
            lemma_tile_shift(self.x as int, self.rel_x as int, tile_size as int);
            lemma_tile_shift(self.y as int, self.rel_y as int, tile_size as int);
        }
        let n = w.to_signed_tile_position(tile_size);
        proof {
            lemma_fundamental_div_mod(w.x as int, tile_size as int);
            lemma_fundamental_div_mod(w.y as int, tile_size as int);
        }
        Ok(n)
    }
}

/// An offset within the band moves the tile index by at most one tile up and
/// two down.
proof fn lemma_tile_shift(tile: int, rel: int, tile_size: int)
    requires
        tile_size > 0,
        in_band(rel, tile_size),
    ensures
        world_axis(tile, rel, tile_size) / tile_size == tile + rel / tile_size,
        -2 <= rel / tile_size <= 1,
{
    let q = rel / tile_size;
    let m = rel % tile_size;
    lemma_fundamental_div_mod(rel, tile_size);
    assert(-2 <= q <= 1) by (nonlinear_arith)
        requires
            rel == tile_size * q + m,
            0 <= m < tile_size,
            -2 * tile_size < rel < 2 * tile_size,
    ;
    assert(world_axis(tile, rel, tile_size) == (tile + q) * tile_size + m) by (nonlinear_arith)
        requires
            rel == tile_size * q + m,
    ;
    lemma_fundamental_div_mod_converse(world_axis(tile, rel, tile_size), tile_size, tile + q, m);
}

impl From<TilePosition> for SignedTilePosition {
    fn from(tp: TilePosition) -> SignedTilePosition {
        SignedTilePosition { x: tp.x as i64, y: tp.y as i64, rel_x: tp.rel_x, rel_y: tp.rel_y }
    }
}

impl vstd::std_specs::convert::FromSpecImpl<TilePosition> for SignedTilePosition {
    open spec fn obeys_from_spec() -> bool {
        true
    }

    open spec fn from_spec(tp: TilePosition) -> SignedTilePosition {
        tp.to_signed_spec()
    }
}

/// A position written as `((x, rel_x), (y, rel_y))`.
impl From<((u32, i64), (u32, i64))> for TilePosition {
    fn from(axes: ((u32, i64), (u32, i64))) -> TilePosition {
        let ((x, rel_x), (y, rel_y)) = axes;
        TilePosition::new(x, y, rel_x, rel_y)
    }
}

impl vstd::std_specs::convert::FromSpecImpl<((u32, i64), (u32, i64))> for TilePosition {
    open spec fn obeys_from_spec() -> bool {
        true
    }

    open spec fn from_spec(axes: ((u32, i64), (u32, i64))) -> TilePosition {
        TilePosition { x: axes.0.0, y: axes.1.0, rel_x: axes.0.1, rel_y: axes.1.1 }
    }
}

impl TryFrom<SignedTilePosition> for TilePosition {
    type Error = PositionError;

    /// Succeeds where the effective coordinate is not negative on either axis:
    /// `x = 0, rel_x = -0.1` lies off the grid though its index does not.
    fn try_from(stp: SignedTilePosition) -> Result<TilePosition, PositionError> {
        let ex = stp.x as i128 * TICKS_PER_UNIT as i128 + stp.rel_x as i128;
        let ey = stp.y as i128 * TICKS_PER_UNIT as i128 + stp.rel_y as i128;
        if stp.x < 0 || stp.y < 0 || ex < 0 || ey < 0 {
            Err(PositionError::OffGrid)
        } else if stp.x > u32::MAX as i64 || stp.y > u32::MAX as i64 {
            Err(PositionError::TileIndexOverflow)
        } else {
            Ok(TilePosition { x: stp.x as u32, y: stp.y as u32, rel_x: stp.rel_x, rel_y: stp.rel_y })
        }
    }
}

impl vstd::std_specs::convert::TryFromSpecImpl<SignedTilePosition> for TilePosition {
    open spec fn obeys_try_from_spec() -> bool {
        true
    }

    open spec fn try_from_spec(stp: SignedTilePosition) -> Result<TilePosition, PositionError> {
        stp.to_tile_position_spec()
    }
}

/// Converting a normalized position to world space and back gives the same
/// position.
pub proof fn lemma_world_round_trip(p: TilePosition, tile_size: int)
    requires
        0 < tile_size <= i64::MAX,
        p.is_normalized(tile_size),
    ensures
        p.world_spec(tile_size).tile_position_spec(tile_size) == Ok::<TilePosition, PositionError>(p),
{
    lemma_world_axis_of_tile(p.x as int, p.rel_x as int, tile_size);
    lemma_world_axis_of_tile(p.y as int, p.rel_y as int, tile_size);
}

proof fn lemma_world_axis_of_tile(tile: int, rel: int, tile_size: int)
    requires
        0 < tile_size <= i64::MAX,
        0 <= tile <= u32::MAX,
        0 <= rel < tile_size,
    ensures
        0 <= world_axis(tile, rel, tile_size) <= i128::MAX,
        world_axis(tile, rel, tile_size) / tile_size == tile,
        world_axis(tile, rel, tile_size) % tile_size == rel,
{
    assert(0 <= tile * tile_size <= 0x8000_0000_0000_0000_0000_0000) by (nonlinear_arith)
        requires
            0 < tile_size <= i64::MAX,
            0 <= tile <= u32::MAX,
    ;
    lemma_fundamental_div_mod_converse(world_axis(tile, rel, tile_size), tile_size, tile, rel);
}

/// Subtracting `b` and adding it back restores `a`: `b + (a - b)` is `a` as a
/// signed position. When `a` is normalized, normalizing that sum changes
/// nothing and narrowing it gives `a` back.
pub proof fn lemma_subtract_then_add(a: TilePosition, b: TilePosition, tile_size: int)
    requires
        0 < tile_size <= i64::MAX,
        a.can_subtract(b),
    ensures
        b.can_add(a.subtract_spec(b)),
        b.add_spec(a.subtract_spec(b)) == a.to_signed_spec(),
        a.is_normalized(tile_size) ==> a.to_signed_spec().normalized_spec(tile_size) == Ok::<SignedTilePosition, PositionError>(
            a.to_signed_spec(),
        ),
        a.is_normalized(tile_size) ==> a.to_signed_spec().to_tile_position_spec() == Ok::<TilePosition, PositionError>(a),
{
    if a.is_normalized(tile_size) {
        lemma_world_axis_of_tile(a.x as int, a.rel_x as int, tile_size);
        lemma_world_axis_of_tile(a.y as int, a.rel_y as int, tile_size);
        assert(a.x * TICKS_PER_UNIT >= 0 && a.y * TICKS_PER_UNIT >= 0) by (nonlinear_arith)
            requires
                a.x >= 0,
                a.y >= 0,
        ;
    }
}

/// The distance between two positions does not depend on their order.
pub proof fn lemma_distance_global_symmetric(a: TilePosition, b: TilePosition, tile_size: int)
    ensures
        a.squared_world_distance(b, tile_size) == b.squared_world_distance(a, tile_size),
        rounded_root(a.squared_world_distance(b, tile_size)) == rounded_root(
            b.squared_world_distance(a, tile_size),
        ),
{
    let dx = b.world_x(tile_size) - a.world_x(tile_size);
    let dy = b.world_y(tile_size) - a.world_y(tile_size);
    assert(dx * dx == (-dx) * (-dx) && dy * dy == (-dy) * (-dy)) by (nonlinear_arith);
}

/// Every position lies in its own tile.
pub proof fn lemma_same_tile_reflexive(a: TilePosition)
    ensures
        a.same_tile_spec(a),
{
}

} // verus!
