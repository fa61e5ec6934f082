use crate::position::TilePosition;
use crate::precision::abs;
use crate::world::{abs_i128, GRID_TILES, WorldCoords};
use vstd::prelude::*;

verus! {

pub open spec fn max(a: int, b: int) -> int {
    if a >= b {
        a
    } else {
        b
    }
}

/// Half of `d`, rounded toward zero.
pub open spec fn half_toward_zero(d: int) -> int {
    if d >= 0 {
        d / 2
    } else {
        -((-d) / 2)
    }
}

/// A width halved `k` times, each time rounded up.
pub open spec fn halved_up(w: int, k: nat) -> int
    decreases k,
{
    if k == 0 {
        w
    } else {
        (halved_up(w, (k - 1) as nat) + 1) / 2
    }
}

/// `v` lies between `a` and `b`, both included, in either order.
pub open spec fn between(v: int, a: int, b: int) -> bool {
    (a <= v <= b) || (b <= v <= a)
}

/// A position whose world point lies in the box spanned by two others.
pub open spec fn lies_between(p: TilePosition, a: TilePosition, b: TilePosition, tile_size: int) -> bool {
    &&& between(p.world_x(tile_size), a.world_x(tile_size), b.world_x(tile_size))
    &&& between(p.world_y(tile_size), a.world_y(tile_size), b.world_y(tile_size))
}

/// Two world points that straddle a crossing: `valid` was judged valid and
/// `invalid` was not.
#[derive(Clone, Copy, Debug, PartialEq, Eq, Structural)]
pub struct Bracket {
    pub valid: WorldCoords,
    pub invalid: WorldCoords,
}

impl Bracket {
    pub open spec fn span_x(self) -> int {
        self.invalid.x - self.valid.x
    }

    pub open spec fn span_y(self) -> int {
        self.invalid.y - self.valid.y
    }

    /// Both spans fit in `i128`.
    pub open spec fn spans_fit(self) -> bool {
        &&& i128::MIN <= self.span_x() <= i128::MAX
        &&& i128::MIN <= self.span_y() <= i128::MAX
    }

    /// The width of the bracket: the larger of its extents along the two axes.
    pub open spec fn width_spec(self) -> int {
        max(abs(self.span_x()), abs(self.span_y()))
    }

    pub open spec fn midpoint_spec(self) -> WorldCoords {
        WorldCoords {
            x: (self.valid.x + half_toward_zero(self.span_x())) as i128,
            y: (self.valid.y + half_toward_zero(self.span_y())) as i128,
        }
    }

    pub open spec fn narrowed_spec(self, midpoint_valid: bool) -> Bracket {
        if midpoint_valid {
            Bracket { valid: self.midpoint_spec(), invalid: self.invalid }
        } else {
            Bracket { valid: self.valid, invalid: self.midpoint_spec() }
        }
    }

    pub fn width(&self) -> (r: u128)
        requires
            self.spans_fit(),
        ensures
            r == self.width_spec(),
    {
        let ax = abs_i128(self.invalid.x - self.valid.x);
        let ay = abs_i128(self.invalid.y - self.valid.y);
        if ax >= ay {
            ax
        } else {
            ay
        }
    }

    /// The point halfway from `valid` to `invalid` on each axis, rounded
    /// toward `valid`.
    pub fn midpoint(&self) -> (r: WorldCoords)
        requires
            self.spans_fit(),
        ensures
            r == self.midpoint_spec(),
            r.x == self.valid.x + half_toward_zero(self.span_x()),
            r.y == self.valid.y + half_toward_zero(self.span_y()),
            between(r.x as int, self.valid.x as int, self.invalid.x as int),
            between(r.y as int, self.valid.y as int, self.invalid.y as int),
    {
        WorldCoords {
            x: self.valid.x + half_i128(self.invalid.x - self.valid.x),
            y: self.valid.y + half_i128(self.invalid.y - self.valid.y),
        }
    }

    /// One step of bisection: the midpoint replaces the end whose verdict it
    /// shares. The width becomes exactly half of what it was, rounded up when
    /// the valid end moves and down when the invalid end moves.
    pub fn narrowed(self, midpoint_valid: bool) -> (r: Bracket)
        requires
            self.spans_fit(),
        ensures
            r == self.narrowed_spec(midpoint_valid),
            r.spans_fit(),
            midpoint_valid ==> r.width_spec() == (self.width_spec() + 1) / 2,
            !midpoint_valid ==> r.width_spec() == self.width_spec() / 2,
            self.width_spec() / 2 <= r.width_spec() <= (self.width_spec() + 1) / 2,
    {
        let m = self.midpoint();
        if midpoint_valid {
            Bracket { valid: m, invalid: self.invalid }
        } else {
            Bracket { valid: self.valid, invalid: m }
        }
    }
}

/// Half of `d`, rounded toward zero.
fn half_i128(d: i128) -> (r: i128)
    ensures
        r == half_toward_zero(d as int),
{
    let h = (abs_i128(d) / 2) as i128;
    if d >= 0 {
        h
    } else {
        -h
    }
}

/// The two ends of a bisection bracket as tile positions: the last position
/// judged valid and the first judged invalid. An end that was not observed in
/// that role is `None`.
#[derive(Clone, Copy, Debug, PartialEq, Eq, Structural)]
pub struct Crossing {
    pub valid: Option<TilePosition>,
    pub invalid: Option<TilePosition>,
}

/// How a crossing search ended.
#[derive(Clone, Copy, Debug, PartialEq, Eq, Structural)]
pub enum SearchStatus {
    /// The bracket narrowed to the requested width.
    Converged,
    /// The iteration budget ran out first; the bracket is a best effort.
    IterationCapReached,
    /// The start was not valid or the end was not invalid: there was no
    /// bracket to narrow.
    NotBracketed,
}

/// The outcome of a crossing search: the final bracket, how the search ended,
/// how many bisection steps it took and the width it reached, in ticks.
#[derive(Clone, Copy, Debug, PartialEq, Eq, Structural)]
pub struct SearchReport {
    pub crossing: Crossing,
    pub status: SearchStatus,
    pub iterations: u32,
    pub width: u128,
}

/// A predicate that gives one verdict for each position.
pub open spec fn is_deterministic<F: Fn(TilePosition) -> bool>(f: F) -> bool {
    forall|p: TilePosition, a: bool, b: bool|
        #![trigger f.ensures((p,), a), f.ensures((p,), b)]
        f.ensures((p,), a) && f.ensures((p,), b) ==> a == b
}

/// The bracket between the world points of two positions.
pub open spec fn bracket_of(valid: TilePosition, invalid: TilePosition, tile_size: int) -> Bracket {
    Bracket { valid: valid.world_spec(tile_size), invalid: invalid.world_spec(tile_size) }
}

/// A world point on the grid inside the box spanned by two normalized positions.
pub open spec fn in_box(w: WorldCoords, a: TilePosition, b: TilePosition, tile_size: int) -> bool {
    &&& between(w.x as int, a.world_x(tile_size), b.world_x(tile_size))
    &&& between(w.y as int, a.world_y(tile_size), b.world_y(tile_size))
}

proof fn lemma_tile_below_grid(tile: int, tile_size: int)
    requires
        tile_size > 0,
        0 <= tile < GRID_TILES,
    ensures
        tile * tile_size + tile_size <= GRID_TILES * tile_size,
{
    assert(tile * tile_size + tile_size <= GRID_TILES * tile_size) by (nonlinear_arith)
        requires
            tile_size > 0,
            tile + 1 <= GRID_TILES,
    ;
}

proof fn lemma_box_on_grid(w: WorldCoords, a: TilePosition, b: TilePosition, tile_size: int)
    requires
        0 < tile_size <= i64::MAX,
        a.is_normalized(tile_size),
        b.is_normalized(tile_size),
        in_box(w, a, b, tile_size),
    ensures
        0 <= w.x < GRID_TILES * tile_size,
        0 <= w.y < GRID_TILES * tile_size,
        GRID_TILES * tile_size < 0x1_0000_0000_0000_0000_0000_0000,
{
    assert(0 <= a.x * tile_size && 0 <= b.x * tile_size && 0 <= a.y * tile_size && 0 <= b.y
        * tile_size) by (nonlinear_arith)
        requires
            tile_size > 0,
    ;
    lemma_tile_below_grid(a.x as int, tile_size);
    lemma_tile_below_grid(b.x as int, tile_size);
    lemma_tile_below_grid(a.y as int, tile_size);
    lemma_tile_below_grid(b.y as int, tile_size);
    assert(GRID_TILES * tile_size < 0x1_0000_0000_0000_0000_0000_0000) by (nonlinear_arith)
        requires
            0 < tile_size <= i64::MAX,
    ;
}

/// Searches, by bisection of the segment from `start` to `end`, for the point
/// where `is_valid` stops holding. `start` must be judged valid and `end`
/// invalid; otherwise the report says `NotBracketed` and keeps each end only
/// in the role it was judged to have. The search stops once the bracket is at
/// most `epsilon` ticks wide, or after `max_iterations` steps. The valid end of
/// the result was always judged valid, the invalid end never.
pub fn find_crossing<F: Fn(TilePosition) -> bool>(
    start: TilePosition,
    end: TilePosition,
    tile_size: i64,
    epsilon: u128,
    max_iterations: u32,
    is_valid: F,
) -> (r: SearchReport)
    requires
        tile_size > 0,
        start.is_normalized(tile_size as int),
        end.is_normalized(tile_size as int),
        forall|p: TilePosition| is_valid.requires((p,)),
    ensures
        r.crossing.valid matches Some(p) ==> {
            &&& is_valid.ensures((p,), true)
            &&& p.is_normalized(tile_size as int)
            &&& lies_between(p, start, end, tile_size as int)
        },
        r.crossing.invalid matches Some(p) ==> {
            &&& is_valid.ensures((p,), false)
            &&& p.is_normalized(tile_size as int)
            &&& lies_between(p, start, end, tile_size as int)
        },
        r.iterations <= max_iterations,
        r.status == SearchStatus::NotBracketed ==> {
            &&& r.iterations == 0
            &&& r.width == bracket_of(start, end, tile_size as int).width_spec()
            &&& r.crossing.valid is None || r.crossing.invalid is None
            &&& r.crossing.valid is None ==> is_valid.ensures((start,), false)
            &&& r.crossing.valid is Some ==> r.crossing.valid == Some(start)
            &&& r.crossing.invalid is None ==> is_valid.ensures((end,), true)
            &&& r.crossing.invalid is Some ==> r.crossing.invalid == Some(end)
        },
        r.status != SearchStatus::NotBracketed ==> {
            &&& r.crossing.valid is Some
            &&& r.crossing.invalid is Some
            &&& r.width == bracket_of(
                r.crossing.valid->Some_0,
                r.crossing.invalid->Some_0,
                tile_size as int,
            ).width_spec()
            &&& r.width <= halved_up(
                bracket_of(start, end, tile_size as int).width_spec(),
                r.iterations as nat,
            )
        },
        r.status == SearchStatus::Converged ==> r.width <= epsilon,
        r.status == SearchStatus::IterationCapReached ==> {
            &&& r.width > epsilon
            &&& r.iterations == max_iterations
        },
        is_deterministic(is_valid) ==> (r.status == SearchStatus::NotBracketed <==> !(
        is_valid.ensures((start,), true) && is_valid.ensures((end,), false))),
{
    let ok_start = is_valid(start);
    let ok_end = is_valid(end);
    let ghost ts = tile_size as int;
    let mut b = Bracket { valid: start.to_world_coords(tile_size), invalid: end.to_world_coords(tile_size) };
    proof {
        lemma_box_on_grid(b.valid, start, end, ts);
        lemma_box_on_grid(b.invalid, start, end, ts);
    }
    let w0 = b.width();
    if !ok_start || ok_end {
        let valid = if ok_start {
            Some(start)
        } else {
            None
        };
        let invalid = if ok_end {
            None
        } else {
            Some(end)
        };
        return SearchReport {
            crossing: Crossing { valid, invalid },
            status: SearchStatus::NotBracketed,
            iterations: 0,
            width: w0,
        };
    }
    let mut valid_tp = start;
    let mut invalid_tp = end;
    let mut iterations: u32 = 0;
    let mut w = w0;
    while iterations < max_iterations && w > epsilon
        invariant
            forall|p: TilePosition| is_valid.requires((p,)),
            tile_size > 0,
            ts == tile_size,
            start.is_normalized(ts),
            end.is_normalized(ts),
            w0 == bracket_of(start, end, ts).width_spec(),
            valid_tp.is_normalized(ts),
            invalid_tp.is_normalized(ts),
            is_valid.ensures((valid_tp,), true),
            is_valid.ensures((invalid_tp,), false),
            lies_between(valid_tp, start, end, ts),
            lies_between(invalid_tp, start, end, ts),
            b == bracket_of(valid_tp, invalid_tp, ts),
            b.valid.x == valid_tp.world_x(ts),
            b.valid.y == valid_tp.world_y(ts),
            b.invalid.x == invalid_tp.world_x(ts),
            b.invalid.y == invalid_tp.world_y(ts),
            in_box(b.valid, start, end, ts),
            in_box(b.invalid, start, end, ts),
            b.spans_fit(),
            w == b.width_spec(),
            w <= halved_up(w0 as int, iterations as nat),
            iterations <= max_iterations,
        decreases max_iterations - iterations,
    {
        let m = b.midpoint();
        proof {
            lemma_box_on_grid(m, start, end, ts);
        }
        let tp = m.to_tile_position(tile_size).unwrap();
        let v = is_valid(tp);
        let ghost prev = halved_up(w0 as int, iterations as nat);
        b = b.narrowed(v);
        if v {
            valid_tp = tp;
        } else {
            invalid_tp = tp;
        }
        proof {
            lemma_box_on_grid(b.valid, start, end, ts);
            lemma_box_on_grid(b.invalid, start, end, ts);
        }
        w = b.width();
        iterations = iterations + 1;
        assert(halved_up(w0 as int, iterations as nat) == (prev + 1) / 2);
    }
    let status = if w <= epsilon {
        SearchStatus::Converged
    } else {
        SearchStatus::IterationCapReached
    };
    SearchReport {
        crossing: Crossing { valid: Some(valid_tp), invalid: Some(invalid_tp) },
        status,
        iterations,
        width: w,
    }
}

} // verus!
