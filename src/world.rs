use vstd::arithmetic::div_mod::lemma_fundamental_div_mod;
use vstd::arithmetic::div_mod::lemma_fundamental_div_mod_converse;
use crate::precision::abs;
use crate::position::{fits_i64, world_axis, PositionError, SignedTilePosition, TilePosition};
use vstd::prelude::*;

verus! {

/// Floor division with remainder by a positive divisor: the quotient rounds
/// toward negative infinity and the remainder lies in `[0, d)`.
pub fn floor_div_rem(w: i128, d: i64) -> (r: (i128, i64))
    requires
        d > 0,
    ensures
        r.0 == (w as int) / (d as int),
        r.1 == (w as int) % (d as int),
        0 <= r.1 < d,
{
    let dd = d as i128;
    if w >= 0 {
        let q = w / dd;
        let m = w % dd;
        (q, m as i64)
    } else {
        let a = -(w + 1);
        let q = a / dd;
        let m = a % dd;
        proof {
            lemma_fundamental_div_mod(a as int, dd as int);
            assert(w == (-q - 1) * dd + (dd - 1 - m)) by (nonlinear_arith)
                requires
                    a == dd * q + m,
                    w == -a - 1,
            ;
            lemma_fundamental_div_mod_converse(w as int, dd as int, -q - 1, dd - 1 - m);
        }
        (-q - 1, (dd - 1 - m) as i64)
    }
}

} // verus!

verus! {

/// A point of the continuous world, in ticks.
#[derive(Clone, Copy, Debug, PartialEq, Eq, Structural)]
pub struct WorldCoords {
    pub x: i128,
    pub y: i128,
}

/// `r` is the square root of `n` rounded to the nearest integer:
/// `r - 1/2 <= sqrt(n) < r + 1/2`. No `n` lies on a tie.
pub open spec fn is_rounded_root(r: int, n: int) -> bool {
    &&& r >= 0
    &&& r == 0 || r * r - r < n
    &&& n <= r * r + r
}

/// The square root of `n` rounded to the nearest integer.
pub open spec fn rounded_root(n: int) -> int {
    choose|r: int| is_rounded_root(r, n)
}

/// A number has one rounded square root at most.
pub proof fn lemma_rounded_root_unique(r: int, s: int, n: int)
    requires
        is_rounded_root(r, n),
        is_rounded_root(s, n),
    ensures
        r == s,
{
    if r < s {
        assert(s * s - s >= r * r + r) by (nonlinear_arith)
            requires
                0 <= r < s,
        ;
    } else if s < r {
        assert(r * r - r >= s * s + s) by (nonlinear_arith)
            requires
                0 <= s < r,
        ;
    }
}

/// A rounded square root is `rounded_root`.
pub proof fn lemma_rounded_root_is(r: int, n: int)
    requires
        is_rounded_root(r, n),
    ensures
        rounded_root(n) == r,
{
    let s = rounded_root(n);
    assert(is_rounded_root(s, n));
    lemma_rounded_root_unique(r, s, n);
}

/// The square root of `n` rounded to the nearest integer.
pub fn rounded_sqrt(n: u128) -> (r: u128)
    ensures
        is_rounded_root(r as int, n as int),
        r == rounded_root(n as int),
{
    let mut lo: u128 = 0;
    let mut hi: u128 = 0x1_0000_0000_0000_0000;
    assert(hi * hi > u128::MAX) by (nonlinear_arith)
        requires
            hi == 0x1_0000_0000_0000_0000u128,
    ;
    while hi - lo > 1
        invariant
            lo < hi <= 0x1_0000_0000_0000_0000u128,
            lo * lo <= n,
            n < hi * hi,
        decreases hi - lo,
    {
        let mid = lo + (hi - lo) / 2;
        assert(mid * mid < 0x1_0000_0000_0000_0000_0000_0000_0000_0000) by (nonlinear_arith)
            requires
                mid < 0x1_0000_0000_0000_0000u128,
        ;
        if mid * mid <= n {
            lo = mid;
        } else {
            hi = mid;
        }
    }
    let f = lo;
    assert(f * f <= n < (f + 1) * (f + 1));
    let r = if n - f * f > f {
        assert(is_rounded_root(f + 1, n as int)) by (nonlinear_arith)
            requires
                f * f <= n < (f + 1) * (f + 1),
                n - f * f > f,
                f >= 0,
        ;
        f + 1
    } else {
        assert(is_rounded_root(f as int, n as int)) by (nonlinear_arith)
            requires
                f * f <= n,
                n - f * f <= f,
                f >= 0,
        ;
        f
    };
    proof {
        lemma_rounded_root_is(r as int, n as int);
    }
    r
}

/// The Euclidean length of `(dx, dy)`, rounded to the nearest integer.
pub fn hypot(dx: i128, dy: i128) -> (r: u128)
    requires
        dx * dx + dy * dy <= u128::MAX,
    ensures
        r == rounded_root(dx * dx + dy * dy),
{
    let ax = abs_i128(dx);
    let ay = abs_i128(dy);
    assert(ax * ax == dx * dx && ay * ay == dy * dy) by (nonlinear_arith)
        requires
            ax == abs(dx as int),
            ay == abs(dy as int),
    ;
    assert(ax * ax >= 0 && ay * ay >= 0) by (nonlinear_arith);
    rounded_sqrt(ax * ax + ay * ay)
}

/// The magnitude of `v`, which always fits in `u128`.
pub(crate) fn abs_i128(v: i128) -> (r: u128)
    ensures
        r == abs(v as int),
{
    if v >= 0 {
        v as u128
    } else {
        (-(v + 1)) as u128 + 1
    }
}

/// Tile indices of the grid are `u32`: this many tiles along each axis.
pub const GRID_TILES: i128 = 0x1_0000_0000;

impl WorldCoords {
    /// The tile position whose cell contains this point, or why there is none.
    pub open spec fn tile_position_spec(self, tile_size: int) -> Result<TilePosition, PositionError> {
        if self.x < 0 || self.y < 0 {
            Err(PositionError::OffGrid)
        } else if (self.x as int) / tile_size >= GRID_TILES || (self.y as int) / tile_size >= GRID_TILES {
            Err(PositionError::TileIndexOverflow)
        } else {
            Ok(
                TilePosition {
                    x: ((self.x as int) / tile_size) as u32,
                    y: ((self.y as int) / tile_size) as u32,
                    rel_x: ((self.x as int) % tile_size) as i64,
                    rel_y: ((self.y as int) % tile_size) as i64,
                },
            )
        }
    }

    /// The signed tile position whose cell contains this point.
    pub open spec fn signed_tile_position_spec(self, tile_size: int) -> SignedTilePosition {
        SignedTilePosition {
            x: ((self.x as int) / tile_size) as i64,
            y: ((self.y as int) / tile_size) as i64,
            rel_x: ((self.x as int) % tile_size) as i64,
            rel_y: ((self.y as int) % tile_size) as i64,
        }
    }

    pub open spec fn squared_distance(self, other: WorldCoords) -> int {
        (other.x - self.x) * (other.x - self.x) + (other.y - self.y) * (other.y - self.y)
    }

    pub fn new(x: i128, y: i128) -> (r: WorldCoords)
        ensures
            r == (WorldCoords { x, y }),
    {
        WorldCoords { x, y }
    }

    /// The point of a tile position: `tile * tile_size + rel` on each axis.
    pub fn from_tile_position(tp: &TilePosition, tile_size: i64) -> (r: WorldCoords)
        requires
            tile_size > 0,
        ensures
            r.x == tp.world_x(tile_size as int),
            r.y == tp.world_y(tile_size as int),
            r == tp.world_spec(tile_size as int),
    {
        WorldCoords {
            x: axis_to_world(tp.x as i64, tp.rel_x, tile_size),
            y: axis_to_world(tp.y as i64, tp.rel_y, tile_size),
        }
    }

    /// The point of a signed tile position: `tile * tile_size + rel` on each axis.
    pub fn from_signed_tile_position(stp: &SignedTilePosition, tile_size: i64) -> (r: WorldCoords)
        requires
            tile_size > 0,
        ensures
            r.x == stp.world_x(tile_size as int),
            r.y == stp.world_y(tile_size as int),
            r == stp.world_spec(tile_size as int),
    {
        WorldCoords {
            x: axis_to_world(stp.x, stp.rel_x, tile_size),
            y: axis_to_world(stp.y, stp.rel_y, tile_size),
        }
    }

    /// The Euclidean distance to `other`, rounded to the nearest tick.
    pub fn distance(&self, other: &WorldCoords) -> (r: u128)
        requires
            self.squared_distance(*other) <= u128::MAX,
        ensures
            r == rounded_root(self.squared_distance(*other)),
    {
        let ghost dx = other.x - self.x;
        let ghost dy = other.y - self.y;
        assert(-0x1_0000_0000_0000_0000 < dx < 0x1_0000_0000_0000_0000) by (nonlinear_arith)
            requires
                dx * dx + dy * dy <= u128::MAX,
        ;
        assert(-0x1_0000_0000_0000_0000 < dy < 0x1_0000_0000_0000_0000) by (nonlinear_arith)
            requires
                dx * dx + dy * dy <= u128::MAX,
        ;
        hypot(other.x - self.x, other.y - self.y)
    }

    /// The tile position of this point: the tile index is the floor of the
    /// coordinate over the tile size, the offset what remains. A negative
    /// coordinate has no tile on the grid.
    pub fn to_tile_position(&self, tile_size: i64) -> (r: Result<TilePosition, PositionError>)
        requires
            tile_size > 0,
        ensures
            r == self.tile_position_spec(tile_size as int),
            r matches Ok(p) ==> {
                &&& p.is_normalized(tile_size as int)
                &&& p.world_x(tile_size as int) == self.x
                &&& p.world_y(tile_size as int) == self.y
            },
            (0 <= self.x < GRID_TILES * tile_size && 0 <= self.y < GRID_TILES * tile_size) ==> r is Ok,
    {
        proof {
            lemma_fundamental_div_mod(self.x as int, tile_size as int);
            lemma_fundamental_div_mod(self.y as int, tile_size as int);
            if 0 <= self.x < GRID_TILES * tile_size && 0 <= self.y < GRID_TILES * tile_size {
                let qx = (self.x as int) / (tile_size as int);
                let qy = (self.y as int) / (tile_size as int);
                assert(qx < GRID_TILES) by (nonlinear_arith)
                    requires
                        self.x == tile_size * qx + (self.x as int) % (tile_size as int),
                        (self.x as int) % (tile_size as int) >= 0,
                        self.x < GRID_TILES * tile_size,
                        tile_size > 0,
                ;
                assert(qy < GRID_TILES) by (nonlinear_arith)
                    requires
                        self.y == tile_size * qy + (self.y as int) % (tile_size as int),
                        (self.y as int) % (tile_size as int) >= 0,
                        self.y < GRID_TILES * tile_size,
                        tile_size > 0,
                ;
            }
        }
        if self.x < 0 || self.y < 0 {
            return Err(PositionError::OffGrid);
        }
        let (tx, rx) = floor_div_rem(self.x, tile_size);
        let (ty, ry) = floor_div_rem(self.y, tile_size);
        if tx >= GRID_TILES || ty >= GRID_TILES {
            return Err(PositionError::TileIndexOverflow);
        }
        assert(tx * tile_size + rx == self.x && ty * tile_size + ry == self.y) by (nonlinear_arith)
            requires
                self.x == tile_size * tx + rx,
                self.y == tile_size * ty + ry,
        ;
        Ok(TilePosition { x: tx as u32, y: ty as u32, rel_x: rx, rel_y: ry })
    }

    /// The signed tile position of this point, by floor division, so that a
    /// negative coordinate gets a negative tile and an offset in `[0, tile_size)`.
    pub fn to_signed_tile_position(&self, tile_size: i64) -> (r: SignedTilePosition)
        requires
            tile_size > 0,
            fits_i64((self.x as int) / (tile_size as int)),
            fits_i64((self.y as int) / (tile_size as int)),
        ensures
            r == self.signed_tile_position_spec(tile_size as int),
            r.x == (self.x as int) / (tile_size as int),
            r.y == (self.y as int) / (tile_size as int),
            0 <= r.rel_x < tile_size,
            0 <= r.rel_y < tile_size,
    {
        let (tx, rx) = floor_div_rem(self.x, tile_size);
        let (ty, ry) = floor_div_rem(self.y, tile_size);
        SignedTilePosition { x: tx as i64, y: ty as i64, rel_x: rx, rel_y: ry }
    }
}

/// `tile * tile_size + rel`, which always fits in `i128`.
fn axis_to_world(tile: i64, rel: i64, tile_size: i64) -> (r: i128)
    requires
        tile_size > 0,
    ensures
        r == world_axis(tile as int, rel as int, tile_size as int),
{
    let t = tile as i128;
    let s = tile_size as i128;
    proof {
        assert(-0x4000_0000_0000_0000_0000_0000_0000_0000 <= t * s <= 0x4000_0000_0000_0000_0000_0000_0000_0000)
            by (nonlinear_arith)
            requires
                -0x8000_0000_0000_0000 <= t <= 0x7fff_ffff_ffff_ffff,
                0 < s <= 0x7fff_ffff_ffff_ffff,
        ;
    }
    t * s + rel as i128
}

} // verus!
