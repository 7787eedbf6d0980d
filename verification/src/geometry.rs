//! Geometry synthesis for ways: linestring, polygon, or centroid point,
//! governed by the geometry policy — with an exact fixed-point centroid.

use vstd::prelude::*;
use crate::config::{GeometryConfig, ClosedWayMode, WayGeometryMode};
use crate::feature::{Coord, Geometry};

verus! {

/// The largest ring length the centroid accumulators accept.
pub const CENTROID_MAX_POINTS: usize = 0x40000000;

/// Twice the signed area contribution of the edge from `a` to `b`.
pub open spec fn spec_cross(a: Coord, b: Coord) -> int {
    a.lon * b.lat - b.lon * a.lat
}

/// The next index around the ring.
pub open spec fn spec_wrap(i: int, n: int) -> int {
    if i + 1 == n {
        0
    } else {
        i + 1
    }
}

/// The partial sum of edge cross products over the first `k` edges.
pub open spec fn spec_sum_a2(s: Seq<Coord>, k: int) -> int
    decreases k,
{
    if k <= 0 {
        0
    } else {
        spec_sum_a2(s, k - 1) + spec_cross(s[k - 1], s[spec_wrap(k - 1, s.len() as int)])
    }
}

/// The partial sum of x-moment terms over the first `k` edges.
pub open spec fn spec_sum_sx(s: Seq<Coord>, k: int) -> int
    decreases k,
{
    if k <= 0 {
        0
    } else {
        let j = spec_wrap(k - 1, s.len() as int);
        spec_sum_sx(s, k - 1) + (s[k - 1].lon + s[j].lon) * spec_cross(s[k - 1], s[j])
    }
}

/// The partial sum of y-moment terms over the first `k` edges.
pub open spec fn spec_sum_sy(s: Seq<Coord>, k: int) -> int
    decreases k,
{
    if k <= 0 {
        0
    } else {
        let j = spec_wrap(k - 1, s.len() as int);
        spec_sum_sy(s, k - 1) + (s[k - 1].lat + s[j].lat) * spec_cross(s[k - 1], s[j])
    }
}

/// Division truncating toward zero.
pub open spec fn spec_tdiv(a: int, b: int) -> int {
    let mag = (if a >= 0 {
        a
    } else {
        -a
    }) / (if b >= 0 {
        b
    } else {
        -b
    });
    if (a >= 0) == (b >= 0) {
        mag
    } else {
        -mag
    }
}

/// The area-weighted centroid of the ring, or nothing when the ring is too
/// long for the accumulators, has zero signed area, or its centroid leaves
/// the fixed-point coordinate range.
pub open spec fn spec_ring_centroid(s: Seq<Coord>) -> Option<Coord> {
    let n = s.len() as int;
    let a2 = spec_sum_a2(s, n);
    let cx = spec_tdiv(spec_sum_sx(s, n), 3 * a2);
    let cy = spec_tdiv(spec_sum_sy(s, n), 3 * a2);
    if n > CENTROID_MAX_POINTS || a2 == 0 {
        None
    } else if cx < i32::MIN || cx > i32::MAX || cy < i32::MIN || cy > i32::MAX {
        None
    } else {
        Some(Coord { lon: cx as i32, lat: cy as i32 })
    }
}

/// The point a centroid request yields: the ring centroid, or the first
/// vertex where the centroid is undefined.
pub open spec fn spec_centroid_point(s: Seq<Coord>) -> Coord {
    match spec_ring_centroid(s) {
        Some(c) => c,
        None => s[0],
    }
}

fn tdiv_i128(a: i128, b: i128) -> (q: i128)
    requires
        b != 0,
        -170141183460469231731687303715884105727i128 <= a,
        -170141183460469231731687303715884105727i128 <= b,
    ensures
        q == spec_tdiv(a as int, b as int),
{
    let au: i128 = if a >= 0 {
        a
    } else {
        -a
    };
    let bu: i128 = if b >= 0 {
        b
    } else {
        -b
    };
    let mag = au / bu;
    proof {
        vstd::arithmetic::div_mod::lemma_div_nonincreasing(au as int, bu as int);
    }
    if (a >= 0) == (b >= 0) {
        mag
    } else {
        -mag
    }
}

/// The centroid of a ring of at least two fixed-point coordinates, or
/// nothing where the exact formula is undefined.
#[verifier::loop_isolation(false)]
pub fn ring_centroid(coords: &Vec<Coord>) -> (r: Option<Coord>)
    requires
        coords@.len() >= 1,
    ensures
        r == spec_ring_centroid(coords@),
{
    let n = coords.len();
    if n > CENTROID_MAX_POINTS {
        return None;
    }
    let mut a2: i128 = 0;
    let mut sx: i128 = 0;
    let mut sy: i128 = 0;
    let mut i: usize = 0;
    while i < n
        invariant
            i <= n,
            n == coords@.len(),
            n <= CENTROID_MAX_POINTS,
            a2 == spec_sum_a2(coords@, i as int),
            sx == spec_sum_sx(coords@, i as int),
            sy == spec_sum_sy(coords@, i as int),
            -9223372036854775808i128 * (i as i128) <= a2 <= 9223372036854775808i128 * (
            i as i128),
            -39614081257132168796771975168i128 * (i as i128) <= sx
                <= 39614081257132168796771975168i128 * (i as i128),
            -39614081257132168796771975168i128 * (i as i128) <= sy
                <= 39614081257132168796771975168i128 * (i as i128),
        decreases n - i,
    {
        let j: usize = if i + 1 == n {
            0
        } else {
            i + 1
        };
        let xi = coords[i].lon as i128;
        let yi = coords[i].lat as i128;
        let xj = coords[j].lon as i128;
        let yj = coords[j].lat as i128;
        proof {
            assert(-4611686018427387904i128 <= xi * yj <= 4611686018427387904i128)
                by (nonlinear_arith)
                requires
                    -2147483648 <= xi <= 2147483647,
                    -2147483648 <= yj <= 2147483647,
            ;
            assert(-4611686018427387904i128 <= xj * yi <= 4611686018427387904i128)
                by (nonlinear_arith)
                requires
                    -2147483648 <= xj <= 2147483647,
                    -2147483648 <= yi <= 2147483647,
            ;
        }
        let cross = xi * yj - xj * yi;
        proof {
            let c = cross as int;
            let f = (xi + xj) as int;
            assert(-39614081257132168796771975168i128 <= (xi + xj) * cross
                <= 39614081257132168796771975168i128) by (nonlinear_arith)
                requires
                    -4294967296 <= (xi + xj) as int <= 4294967296,
                    -9223372036854775808 <= cross as int <= 9223372036854775808,
            ;
            assert(-39614081257132168796771975168i128 <= (yi + yj) * cross
                <= 39614081257132168796771975168i128) by (nonlinear_arith)
                requires
                    -4294967296 <= (yi + yj) as int <= 4294967296,
                    -9223372036854775808 <= cross as int <= 9223372036854775808,
            ;
            assert((i as i128 + 1) * 9223372036854775808i128 <= 1073741824i128
                * 9223372036854775808i128) by (nonlinear_arith)
                requires
                    0 <= i as i128 + 1 <= 1073741824i128,
            ;
            assert((i as i128 + 1) * 39614081257132168796771975168i128 <= 1073741824i128
                * 39614081257132168796771975168i128) by (nonlinear_arith)
                requires
                    0 <= i as i128 + 1 <= 1073741824i128,
            ;
            assert((i as i128) * 9223372036854775808i128 + 9223372036854775808i128 == (i as i128
                + 1) * 9223372036854775808i128) by (nonlinear_arith);
            assert((i as i128) * 39614081257132168796771975168i128
                + 39614081257132168796771975168i128 == (i as i128 + 1)
                * 39614081257132168796771975168i128) by (nonlinear_arith);
        }
        a2 = a2 + cross;
        sx = sx + (xi + xj) * cross;
        sy = sy + (yi + yj) * cross;
        i = i + 1;
    }
    if a2 == 0 {
        return None;
    }
    let d = 3 * a2;
    let cx = tdiv_i128(sx, d);
    let cy = tdiv_i128(sy, d);
    if cx < -2147483648i128 || cx > 2147483647i128 || cy < -2147483648i128 || cy
        > 2147483647i128 {
        return None;
    }
    Some(Coord { lon: cx as i32, lat: cy as i32 })
}

/// Whether `g` is the geometry the policy assigns to a way with the given
/// resolved coordinates: the kind is decided only by whether the sequence
/// is closed and by the matching policy field, and a centroid request
/// always yields a point.
pub open spec fn spec_way_geometry_ok(cfg: GeometryConfig, coords: Seq<Coord>, g: Geometry) -> bool {
    let closed = coords[0] == coords.last();
    if closed {
        match cfg.closed_way {
            ClosedWayMode::Polygon => g matches Geometry::Polygon(ring) && ring@ == coords,
            ClosedWayMode::Centroid => g matches Geometry::Point(p) && p == spec_centroid_point(
                coords,
            ),
            ClosedWayMode::Linestring => g matches Geometry::LineString(l) && l@ == coords,
        }
    } else {
        match cfg.way.spec_mode() {
            WayGeometryMode::Linestring => g matches Geometry::LineString(l) && l@ == coords,
            WayGeometryMode::Polygon => g matches Geometry::Polygon(ring) && ring@ == coords,
            WayGeometryMode::Centroid => g matches Geometry::Point(p) && p == spec_centroid_point(
                coords,
            ),
        }
    }
}

/// Build the geometry of a way from its resolved coordinates.
///
/// Law: the kind of the result is decided only by whether the sequence is
/// closed and by the matching policy field — a closed way under the
/// centroid policy always yields a point, as does an open way under a
/// centroid way mode.
pub fn build_way_geometry(geometry_cfg: &GeometryConfig, coords: Vec<Coord>) -> (g: Geometry)
    requires
        coords@.len() >= 2,
    ensures
        spec_way_geometry_ok(*geometry_cfg, coords@, g),
{
    let n = coords.len();
    let closed = coords[0] == coords[n - 1];
    if closed {
        match geometry_cfg.closed_way {
            ClosedWayMode::Polygon => Geometry::Polygon(coords),
            ClosedWayMode::Centroid => {
                let centroid = ring_centroid(&coords);
                match centroid {
                    Some(c) => Geometry::Point(c),
                    None => Geometry::Point(coords[0]),
                }
            },
            ClosedWayMode::Linestring => Geometry::LineString(coords),
        }
    } else {
        match geometry_cfg.way.mode() {
            WayGeometryMode::Linestring => Geometry::LineString(coords),
            WayGeometryMode::Polygon => Geometry::Polygon(coords),
            WayGeometryMode::Centroid => {
                let centroid = ring_centroid(&coords);
                match centroid {
                    Some(c) => Geometry::Point(c),
                    None => Geometry::Point(coords[0]),
                }
            },
        }
    }
}

} // verus!
