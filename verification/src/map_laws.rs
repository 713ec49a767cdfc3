//! What holds of the places on the map: the squares of the locators, the regions of the
//! sections, and where in its region a station is shown.

use vstd::prelude::*;

use crate::panel_data::{GridLoc, Locator, Terrain};

verus! {

/// The western edge of a region, in seconds of arc.
pub open spec fn west(g: GridLoc) -> int {
    g.lon - g.lon_size / 2
}

/// The southern edge of a region, in seconds of arc.
pub open spec fn south(g: GridLoc) -> int {
    g.lat - g.lat_size / 2
}

/// Degrees in seconds of arc.
pub open spec fn degrees(n: int) -> int {
    3_600 * n
}

/// The bytes of a locator of four places: two letters, each so many after A, and two
/// digits.
pub open spec fn locator4(fx: int, fy: int, sx: int, sy: int) -> Seq<u8> {
    seq![(65 + fx) as u8, (65 + fy) as u8, (48 + sx) as u8, (48 + sy) as u8]
}

/// The bytes of a locator of six places.
pub open spec fn locator6(fx: int, fy: int, sx: int, sy: int, ux: int, uy: int) -> Seq<u8> {
    locator4(fx, fy, sx, sy) + seq![(65 + ux) as u8, (65 + uy) as u8]
}

/// The western edge of a square is 180 degrees west and from there 20 degrees east for each
/// letter and 2 for each digit; the southern edge is 90 degrees south and from there 10
/// degrees north for each letter and 1 for each digit. A square is 2 degrees wide and 1 high.
pub proof fn law_square_edges(fx: int, fy: int, sx: int, sy: int)
    requires
        0 <= fx < 18,
        0 <= fy < 18,
        0 <= sx < 10,
        0 <= sy < 10,
    ensures
        crate::panel_data::grid_cell(locator4(fx, fy, sx, sy)) matches Some(g) && west(g)
            == degrees(-180 + 20 * fx + 2 * sx) && south(g) == degrees(-90 + 10 * fy + sy)
            && g.lon_size == degrees(2) && g.lat_size == degrees(1),
{
}

/// The next letter of the first pair moves the square 20 degrees east, and that of the second
/// 10 degrees north; the next digit moves it 2 degrees east, or 1 north. Nothing else moves.
pub proof fn law_next_square(fx: int, fy: int, sx: int, sy: int)
    requires
        0 <= fx < 17,
        0 <= fy < 17,
        0 <= sx < 9,
        0 <= sy < 9,
    ensures
        ({
            let here = crate::panel_data::grid_cell(locator4(fx, fy, sx, sy))->Some_0;
            let field_east = crate::panel_data::grid_cell(locator4(fx + 1, fy, sx, sy))->Some_0;
            let field_north = crate::panel_data::grid_cell(locator4(fx, fy + 1, sx, sy))->Some_0;
            let east = crate::panel_data::grid_cell(locator4(fx, fy, sx + 1, sy))->Some_0;
            let north = crate::panel_data::grid_cell(locator4(fx, fy, sx, sy + 1))->Some_0;
            &&& field_east.lon - here.lon == degrees(20) && field_east.lat == here.lat
            &&& field_north.lat - here.lat == degrees(10) && field_north.lon == here.lon
            &&& east.lon - here.lon == degrees(2) && east.lat == here.lat
            &&& north.lat - here.lat == degrees(1) && north.lon == here.lon
        }),
{
}

/// The ninth digit of a field and the first of the next are neighbours: the squares lie edge
/// to edge, with no gap and nothing shared.
pub proof fn law_fields_join(fx: int, fy: int, sx: int, sy: int)
    requires
        0 <= fx < 17,
        0 <= fy < 17,
        0 <= sx < 10,
        0 <= sy < 10,
    ensures
        ({
            let a = crate::panel_data::grid_cell(locator4(fx, fy, 9, sy))->Some_0;
            let b = crate::panel_data::grid_cell(locator4(fx + 1, fy, 0, sy))->Some_0;
            let c = crate::panel_data::grid_cell(locator4(fx, fy, sx, 9))->Some_0;
            let d = crate::panel_data::grid_cell(locator4(fx, fy + 1, sx, 0))->Some_0;
            west(a) + a.lon_size == west(b) && south(c) + c.lat_size == south(d)
        }),
{
}

/// Whether a point lies in the interior of a region.
pub open spec fn inside(g: GridLoc, lon: int, lat: int) -> bool {
    west(g) < lon < west(g) + g.lon_size && south(g) < lat < south(g) + g.lat_size
}

/// Two different squares never share a point of their interiors: two locators of four places
/// whose squares do are the same but for the case of their letters.
pub proof fn law_squares_are_apart(b: Seq<u8>, c: Seq<u8>, lon: int, lat: int)
    requires
        b.len() == 4,
        c.len() == 4,
        crate::panel_data::grid_cell(b) matches Some(g) && inside(g, lon, lat),
        crate::panel_data::grid_cell(c) matches Some(g) && inside(g, lon, lat),
    ensures
        b.map_values(|x: u8| crate::panel_data::upper_byte(x)) == c.map_values(
            |x: u8| crate::panel_data::upper_byte(x),
        ),
{
    let (x, y) = crate::panel_data::square(b)->Some_0;
    let (u, v) = crate::panel_data::square(c)->Some_0;
    assert(x == u && y == v) by {
        let p = (x + 648_000) / 7_200;
        let q = (u + 648_000) / 7_200;
        let r = (y + 324_000) / 3_600;
        let s = (v + 324_000) / 3_600;
        assert(x == 7_200 * p - 648_000 && u == 7_200 * q - 648_000);
        assert(y == 3_600 * r - 324_000 && v == 3_600 * s - 324_000);
    }
    let up = b.map_values(|x: u8| crate::panel_data::upper_byte(x));
    let vp = c.map_values(|x: u8| crate::panel_data::upper_byte(x));
    assert forall|i: int| 0 <= i < 4 implies up[i] == vp[i] by {
        assert(crate::panel_data::letter(b[0], 18) == crate::panel_data::letter(c[0], 18));
        assert(crate::panel_data::letter(b[1], 18) == crate::panel_data::letter(c[1], 18));
        assert(crate::panel_data::figure(b[2]) == crate::panel_data::figure(c[2]));
        assert(crate::panel_data::figure(b[3]) == crate::panel_data::figure(c[3]));
        if i == 0 || i == 1 {
            assert(crate::panel_data::letter(b[i], 18) == crate::panel_data::letter(c[i], 18));
        } else {
            assert(crate::panel_data::figure(b[i]) == crate::panel_data::figure(c[i]));
        }
    }
    assert(up == vp);
}

/// The squares leave nothing out: every point of the earth lies in one of them, or on its
/// western or southern edge.
pub proof fn law_squares_cover_the_earth(lon: int, lat: int)
    requires
        degrees(-180) <= lon < degrees(180),
        degrees(-90) <= lat < degrees(90),
    ensures
        exists|fx: int, fy: int, sx: int, sy: int|
            0 <= fx < 18 && 0 <= fy < 18 && 0 <= sx < 10 && 0 <= sy < 10 && (
            #[trigger] crate::panel_data::grid_cell(locator4(fx, fy, sx, sy)) matches Some(g)
                && west(g) <= lon < west(g) + g.lon_size && south(g) <= lat < south(g)
                + g.lat_size),
{
    let fx = (lon + 648_000) / 72_000;
    let sx = (lon + 648_000) % 72_000 / 7_200;
    let fy = (lat + 324_000) / 36_000;
    let sy = (lat + 324_000) % 36_000 / 3_600;
    law_square_edges(fx, fy, sx, sy);
    assert(crate::panel_data::grid_cell(locator4(fx, fy, sx, sy)) is Some);
}

/// A subsquare is a 24th of its square each way: its letters count from the south-western
/// corner of the square, 5 minutes east and 2.5 minutes north each.
pub proof fn law_subsquare_edges(fx: int, fy: int, sx: int, sy: int, ux: int, uy: int)
    requires
        0 <= fx < 18,
        0 <= fy < 18,
        0 <= sx < 10,
        0 <= sy < 10,
        0 <= ux < 24,
        0 <= uy < 24,
    ensures
        ({
            let q = crate::panel_data::grid_cell(locator4(fx, fy, sx, sy))->Some_0;
            let s = crate::panel_data::grid_cell(locator6(fx, fy, sx, sy, ux, uy));
            &&& s matches Some(g)
            &&& 24 * g.lon_size == q.lon_size && 24 * g.lat_size == q.lat_size
            &&& west(g) - west(q) == 5 * 60 * ux
            &&& south(g) - south(q) == 5 * 30 * uy
        }),
{
    let b = locator6(fx, fy, sx, sy, ux, uy);
    assert(b.len() == 6);
    assert(crate::panel_data::square(b) == crate::panel_data::square(locator4(fx, fy, sx, sy)));
}

/// What is a locator: four, six or eight places; two letters up to R, two digits, and where
/// there are more places two letters up to X, each letter in either case.
pub proof fn law_what_is_a_locator(b: Seq<u8>)
    ensures
        crate::panel_data::grid_cell(b) is Some <==> {
            &&& b.len() == 4 || b.len() == 6 || b.len() == 8
            &&& 65 <= b[0] <= 82 || 97 <= b[0] <= 114
            &&& 65 <= b[1] <= 82 || 97 <= b[1] <= 114
            &&& 48 <= b[2] <= 57
            &&& 48 <= b[3] <= 57
            &&& b.len() > 4 ==> (65 <= b[4] <= 88 || 97 <= b[4] <= 120) && (65 <= b[5] <= 88 || 97
                <= b[5] <= 120)
        },
{
}

/// The regions of the sections lie on the western half of the northern hemisphere, and each
/// has a size.
pub proof fn law_sections_are_in_north_america(s: Seq<char>)
    requires
        crate::panel_data::section_region(s) is Some,
    ensures
        ({
            let g = crate::panel_data::section_region(s)->Some_0;
            &&& degrees(-180) < west(g) && west(g) + g.lon_size < degrees(-50)
            &&& degrees(15) < south(g) && south(g) + g.lat_size < degrees(72)
            &&& g.lon_size > 0 && g.lat_size > 0
            &&& g.lon_size <= degrees(30) && g.lat_size <= degrees(8)
        }),
{
}

/// A station with a locator is placed by it, whether it was heard or logged; one whose
/// locator or section names no region is not placed.
pub proof fn law_placed_by_its_locator(call: Seq<char>, g: String, loc: Locator, t: Terrain)
    ensures
        crate::panel_data::placed(call, Locator::Grid(g), t) == crate::panel_data::placed_in_grid(
            call,
            g@,
            t,
        ),
        crate::panel_data::region_of(loc) is None <==> crate::panel_data::placed(call, loc, t) is None,
{
}

/// Where a station is shown moves with its region, and the offset from the middle grows with
/// the region's size, each way by itself.
pub proof fn law_spread_follows_the_region(call: Seq<char>, g: GridLoc, h: GridLoc)
    ensures
        g.lon_size == h.lon_size ==> crate::panel_data::spread_place(call, g).0
            - crate::panel_data::spread_place(call, h).0 == (g.lon - h.lon) * 1_310_700,
        g.lat_size == h.lat_size ==> crate::panel_data::spread_place(call, g).1
            - crate::panel_data::spread_place(call, h).1 == (g.lat - h.lat) * 1_310_700,
        g.lon == h.lon && g.lon_size == 2 * h.lon_size ==> crate::panel_data::spread_place(
            call,
            g,
        ).0 - g.lon * 1_310_700 == 2 * (crate::panel_data::spread_place(call, h).0 - h.lon
            * 1_310_700),
        g.lat == h.lat && g.lat_size == 2 * h.lat_size ==> crate::panel_data::spread_place(
            call,
            g,
        ).1 - g.lat * 1_310_700 == 2 * (crate::panel_data::spread_place(call, h).1 - h.lat
            * 1_310_700),
{
    let j = crate::panel_data::jitter(
        crate::panel_data::fnv(crate::panel_data::bytes_of(call), 0x811c_9dc5),
    );
    let k = crate::panel_data::jitter(
        crate::panel_data::fnv(crate::panel_data::bytes_of(call), 0x517c_c1b7),
    );
    assert(g.lon_size == 2 * h.lon_size ==> j * 8 * g.lon_size == 2 * (j * 8 * h.lon_size))
        by (nonlinear_arith);
    assert(g.lat_size == 2 * h.lat_size ==> k * 8 * g.lat_size == 2 * (k * 8 * h.lat_size))
        by (nonlinear_arith);
}

/// How far a hash moves a station: evenly over four tenths of the side to either side, from
/// the lowest of its 16 bits to the highest; two hashes move it equally far only where these
/// bits agree.
pub proof fn law_spread_is_even(a: u32, b: u32)
    ensures
        a % 65_536 == 0 ==> crate::panel_data::jitter(a) == -65_535,
        a % 65_536 == 65_535 ==> crate::panel_data::jitter(a) == 65_535,
        crate::panel_data::jitter(a) - crate::panel_data::jitter(b) == 2 * (a % 65_536 - b % 65_536),
{
}

/// The offset to the east comes from the hash of the call with the standard FNV seed, and
/// that to the north from one with another seed, so that the two do not go together.
pub proof fn law_spread_by_two_hashes(call: Seq<char>, g: GridLoc)
    ensures
        ({
            let b = crate::panel_data::bytes_of(call);
            let p = crate::panel_data::spread_place(call, g);
            let x = crate::panel_data::fnv(b, 2_166_136_261) as int % 65_536;
            let y = crate::panel_data::fnv(b, 0x517c_c1b7) as int % 65_536;
            &&& p.0 - g.lon * 1_310_700 == (2 * x - 65_535) * 8 * g.lon_size
            &&& p.1 - g.lat * 1_310_700 == (2 * y - 65_535) * 8 * g.lat_size
        }),
{
}

/// The lattice on which land is looked for: 17 points each way, a twentieth of the side
/// apart, the ninth of them in the middle.
pub proof fn law_lattice(g: GridLoc, row: int, col: int)
    requires
        0 <= row < 17,
        0 <= col < 17,
    ensures
        ({
            let p = crate::panel_data::candidate(g, 17 * row + col);
            &&& 20 * (p.0 - g.lon * 1_310_700) == (col - 8) * (g.lon_size * 1_310_700)
            &&& 20 * (p.1 - g.lat * 1_310_700) == (row - 8) * (g.lat_size * 1_310_700)
        }),
        crate::panel_data::CANDIDATES == 17 * 17,
{
    assert((17 * row + col) % 17 == col);
    assert((17 * row + col) / 17 == row);
    let (c, w) = (col - 8, g.lon_size as int);
    let (r, h) = (row - 8, g.lat_size as int);
    assert(20 * (c * 65_535 * w) == c * (w * 1_310_700)) by (nonlinear_arith);
    assert(20 * (r * 65_535 * h) == r * (h * 1_310_700)) by (nonlinear_arith);
}

/// The distance of two points follows from the two sides of the right angle between them; it
/// is nothing exactly where they are the same, and the same both ways.
pub proof fn law_distance(p: (int, int), q: (int, int))
    ensures
        crate::panel_data::apart(p, q) == crate::panel_data::apart(q, p),
        crate::panel_data::apart(p, q) == 0 <==> p == q,
        crate::panel_data::apart(p, q) == crate::panel_data::apart(p, (q.0, p.1))
            + crate::panel_data::apart((q.0, p.1), q),
        q.1 == p.1 ==> crate::panel_data::apart(p, q) == (p.0 - q.0) * (p.0 - q.0),
{
    let (x, y) = (p.0 - q.0, p.1 - q.1);
    assert(x * x == (-x) * (-x) && y * y == (-y) * (-y)) by (nonlinear_arith);
    assert(x * x >= 0 && y * y >= 0) by (nonlinear_arith);
    assert(x * x == 0 <==> x == 0) by (nonlinear_arith);
    assert(y * y == 0 <==> y == 0) by (nonlinear_arith);
    assert(0int * 0int == 0);
}

/// A triangle holds its own corners, and holds the same points whichever corner it is named
/// by first and whichever way round.
pub proof fn law_triangle_holds_its_corners(
    p: (int, int),
    a: (int, int),
    b: (int, int),
    c: (int, int),
)
    ensures
        crate::panel_data::in_triangle(a, a, b, c),
        crate::panel_data::in_triangle(b, a, b, c),
        crate::panel_data::in_triangle(c, a, b, c),
        crate::panel_data::in_triangle(p, a, b, c) == crate::panel_data::in_triangle(p, b, c, a),
        crate::panel_data::in_triangle(p, a, b, c) == crate::panel_data::in_triangle(p, c, b, a),
{
    lemma_sides(a, a, b, c);
    lemma_sides(b, a, b, c);
    lemma_sides(c, a, b, c);
    lemma_side_turns(p, a, b);
    lemma_side_turns(p, b, c);
    lemma_side_turns(p, c, a);
    lemma_side_ends(a, b);
    lemma_side_ends(b, c);
    lemma_side_ends(c, a);
}

proof fn lemma_side_ends(a: (int, int), b: (int, int))
    ensures
        crate::panel_data::side(a, a, b) == 0,
        crate::panel_data::side(b, a, b) == 0,
{
    let (x, y) = (a.0 - b.0, a.1 - b.1);
    assert(x * y - x * y == 0) by (nonlinear_arith);
    assert(0 * y - x * 0 == 0) by (nonlinear_arith);
}

proof fn lemma_side_turns(p: (int, int), a: (int, int), b: (int, int))
    ensures
        crate::panel_data::side(p, a, b) == -crate::panel_data::side(p, b, a),
{
    let (px, py, ax, ay, bx, by) = (p.0, p.1, a.0, a.1, b.0, b.1);
    assert((px - bx) * (ay - by) - (ax - bx) * (py - by) == -((px - ax) * (by - ay) - (bx - ax) * (py
        - ay))) by (nonlinear_arith);
}

proof fn lemma_sides(p: (int, int), a: (int, int), b: (int, int), c: (int, int))
    ensures
        crate::panel_data::side(p, a, b) + crate::panel_data::side(p, b, c)
            + crate::panel_data::side(p, c, a) == crate::panel_data::side(c, a, b),
{
    let (ux, uy, vx, vy) = (p.0 - b.0, p.1 - b.1, a.0 - b.0, a.1 - b.1);
    let (wx, wy) = (c.0 - b.0, c.1 - b.1);
    assert((ux - wx) * (-wy) - (-wx) * (uy - wy) == wx * uy - ux * wy) by (nonlinear_arith);
    assert((ux - vx) * (wy - vy) == ux * wy - ux * vy - vx * wy + vx * vy) by (nonlinear_arith);
    assert((wx - vx) * (uy - vy) == wx * uy - wx * vy - vx * uy + vx * vy) by (nonlinear_arith);
    assert(p.0 - c.0 == ux - wx && p.1 - c.1 == uy - wy);
    assert(b.0 - c.0 == -wx && b.1 - c.1 == -wy);
    assert(p.0 - a.0 == ux - vx && p.1 - a.1 == uy - vy);
    assert(c.0 - a.0 == wx - vx && c.1 - a.1 == wy - vy);
}

/// A triangle ends at its edges: it holds no point that lies on the other side of the line
/// through two of its corners than the third.
pub proof fn law_triangle_ends_at_its_edges(
    p: (int, int),
    a: (int, int),
    b: (int, int),
    c: (int, int),
)
    requires
        crate::panel_data::side(p, a, b) > 0 && crate::panel_data::side(c, a, b) < 0
            || crate::panel_data::side(p, a, b) < 0 && crate::panel_data::side(c, a, b) > 0,
    ensures
        !crate::panel_data::in_triangle(p, a, b, c),
{
    lemma_sides(p, a, b, c);
}

/// On which side of a line a point lies: east of a line that goes north is one side, north of
/// a line that goes east the other, and a point as far on the other side counts the opposite.
pub proof fn law_sides_of_a_line(a: (int, int), b: (int, int), dx: int, dy: int)
    ensures
        crate::panel_data::side((b.0 + dx, b.1 + dy), a, b) == -crate::panel_data::side(
            (b.0 - dx, b.1 - dy),
            a,
            b,
        ),
        b.0 == a.0 && b.1 < a.1 && dx > 0 ==> crate::panel_data::side((b.0 + dx, b.1 + dy), a, b)
            > 0,
        b.1 == a.1 && b.0 < a.0 && dy > 0 ==> crate::panel_data::side((b.0 + dx, b.1 + dy), a, b)
            < 0,
{
    let (x, y) = (a.0 - b.0, a.1 - b.1);
    assert(dx * y - x * dy == -((-dx) * y - x * (-dy))) by (nonlinear_arith);
    assert(x == 0 && y > 0 && dx > 0 ==> dx * y - x * dy > 0) by (nonlinear_arith);
    assert(y == 0 && x > 0 && dy > 0 ==> dx * y - x * dy < 0) by (nonlinear_arith);
}

/// A point is dry where some triangle of the land holds it and none of the lakes does.
pub proof fn law_dry_land(t: Terrain, p: (int, int), i: int, j: int)
    ensures
        t.dry(p) && 0 <= j < t.lakes.idx@.len() / 3 ==> !crate::panel_data::in_triangle(
            p,
            crate::panel_data::at(t.lakes.verts@[t.lakes.idx@[3 * j] as int]),
            crate::panel_data::at(t.lakes.verts@[t.lakes.idx@[3 * j + 1] as int]),
            crate::panel_data::at(t.lakes.verts@[t.lakes.idx@[3 * j + 2] as int]),
        ),
        !t.dry(p) && !t.lakes.covers(p) && 0 <= i < t.land.idx@.len() / 3
            ==> !crate::panel_data::in_triangle(
            p,
            crate::panel_data::at(t.land.verts@[t.land.idx@[3 * i] as int]),
            crate::panel_data::at(t.land.verts@[t.land.idx@[3 * i + 1] as int]),
            crate::panel_data::at(t.land.verts@[t.land.idx@[3 * i + 2] as int]),
        ),
        t.dry(p) ==> t.land.idx@.len() >= 3,
{
    if 0 <= j < t.lakes.idx@.len() / 3 && t.lakes.holds(j, p) {
        assert(t.lakes.covers(p));
    }
    if 0 <= i < t.land.idx@.len() / 3 && t.land.holds(i, p) {
        assert(t.land.covers(p));
    }
}

} // verus!
