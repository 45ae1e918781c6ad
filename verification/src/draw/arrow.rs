//! The arrow drawer: the shaft plus arrowhead geometry derived from the
//! generated shaft path.
//!
//! The shaft is planned like a line.  Once the sketch-path generator has
//! produced the shaft's path, the marker geometry of each declared arrowhead
//! is computed from that path's terminal curve segment: a tangent point is
//! taken three tenths of the way along the segment, the marker base point is
//! moved from the endpoint toward it, and wing points fan out by rotation
//! about the endpoint.

use vstd::prelude::*;
use crate::draw::utils::{
    default_options_generator, distance2d, options_base, spec_dash, spec_resolve_color,
};
use crate::draw::{DrawConfig, DrawOp, Options, PathCmd, Rgba, ShapeKind};
use crate::element::{Arrowhead, Element, FillStyle};
use crate::fixed::{lemma_div_65536_bound, lemma_unit_mul_bound, sqrt_floor, Fx};
use crate::point::{pt_raw, Point};

verus! {

/// Fixed-point product of two raw values, rounded toward minus infinity.
pub open spec fn fx_mul_raw(a: int, b: int) -> int {
    (a * b) / 65536
}

/// Fixed-point cube of a raw value.
pub open spec fn spec_cube(v: int) -> int {
    fx_mul_raw(fx_mul_raw(v, v), v)
}

/// One coordinate of the cubic Bezier evaluation used for tangent
/// approximation, with the Bernstein weights applied from `a3` down to `a0`.
pub open spec fn spec_bezier_coord(t: int, a0: int, a1: int, a2: int, a3: int) -> int {
    let u = 65536 - t;
    fx_mul_raw(spec_cube(u), a3) + fx_mul_raw(3 * fx_mul_raw(fx_mul_raw(u, u), t), a2)
        + fx_mul_raw(3 * fx_mul_raw(fx_mul_raw(t, t), u), a1) + fx_mul_raw(spec_cube(t), a0)
}

/// The control points of a curve command, or origin points for any other
/// command.
pub open spec fn spec_curve_triple(c: PathCmd) -> (Point, Point, Point) {
    match c {
        PathCmd::CurveTo(a, b, p) => (a, b, p),
        _ => (pt_raw(0, 0), pt_raw(0, 0), pt_raw(0, 0)),
    }
}

/// The point at which the command before the terminal segment leaves the
/// pen, or the origin when that command moves no pen.
pub open spec fn spec_prev_anchor(c: PathCmd) -> Point {
    match c {
        PathCmd::MoveTo(p) => p,
        PathCmd::CurveTo(_, _, p) => p,
        _ => pt_raw(0, 0),
    }
}

/// The endpoint of a generated path and its tangent-approximation point,
/// taken at parameter 0.3 of the terminal curve segment: the second command
/// for the start of the path, the last command for its end.
pub open spec fn spec_start_end(cmds: Seq<PathCmd>, is_start: bool) -> (Point, Point) {
    let index: int = if is_start {
        1
    } else {
        cmds.len() - 1
    };
    let tri = spec_curve_triple(cmds[index]);
    let p0 = spec_prev_anchor(cmds[index - 1]);
    let x1 = spec_bezier_coord(
        19661,
        p0.x.raw as int,
        tri.0.x.raw as int,
        tri.1.x.raw as int,
        tri.2.x.raw as int,
    );
    let y1 = spec_bezier_coord(
        19661,
        p0.y.raw as int,
        tri.0.y.raw as int,
        tri.1.y.raw as int,
        tri.2.y.raw as int,
    );
    if is_start {
        (p0, pt_raw(x1, y1))
    } else {
        (tri.2, pt_raw(x1, y1))
    }
}

/// Rotation of `point1` about `point2` by the angle whose cosine and sine
/// are the given raw values.
pub open spec fn spec_rotate(p1: Point, p2: Point, cos: int, sin: int) -> Point {
    let dx = p1.x.raw - p2.x.raw;
    let dy = p1.y.raw - p2.y.raw;
    pt_raw(
        fx_mul_raw(dx, cos) - fx_mul_raw(dy, sin) + p2.x.raw,
        fx_mul_raw(dx, sin) + fx_mul_raw(dy, cos) + p2.y.raw,
    )
}

/// Distance between two points, rounded down to a raw unit.
pub open spec fn spec_dist(a: Point, b: Point) -> int {
    sqrt_floor(
        (b.x.raw - a.x.raw) * (b.x.raw - a.x.raw) + (b.y.raw - a.y.raw) * (b.y.raw - a.y.raw),
    )
}

/// Total length of a polyline.
pub open spec fn spec_polyline_len(ps: Seq<Point>) -> int
    decreases ps.len(),
{
    if ps.len() <= 1 {
        0
    } else {
        spec_polyline_len(ps.drop_last()) + spec_dist(ps[ps.len() - 2], ps[ps.len() - 1])
    }
}

/// Length of the last declared segment: from the second-to-last point (or
/// the origin when only one point is declared) to the last point.
pub open spec fn spec_last_segment_len(ps: Seq<Point>) -> int {
    let prev = if ps.len() > 1 {
        ps[ps.len() - 2]
    } else {
        pt_raw(0, 0)
    };
    spec_dist(prev, ps[ps.len() - 1])
}

/// Shaft length used to size an `Arrow` marker: the last drawn segment, a
/// local effect.  A degenerate point list contributes a zero length.
pub open spec fn spec_arrow_length(e: Element) -> int {
    spec_last_segment_len(crate::draw::line::spec_path_points(e))
}

/// Shaft length used to size `Bar`, `Dot` and `Triangle` markers: the whole
/// drawn polyline, a global effect.
pub open spec fn spec_total_length(e: Element) -> int {
    spec_polyline_len(crate::draw::line::spec_path_points(e))
}

/// The marker base point: the path endpoint `sp` moved toward the tangent
/// point `ep` by the smaller of `size` and half the shaft length; `sp`
/// itself when the two coincide.
pub open spec fn spec_arrow_point(sp: Point, ep: Point, length: int, size: int) -> Point {
    let dx = sp.x.raw - ep.x.raw;
    let dy = sp.y.raw - ep.y.raw;
    let dist = sqrt_floor(dx * dx + dy * dy);
    if dist == 0 {
        sp
    } else {
        let nx = (dx * 65536) / dist;
        let ny = (dy * 65536) / dist;
        let ms = vstd::math::min(size, length / 2);
        pt_raw(sp.x.raw - fx_mul_raw(nx, ms), sp.y.raw - fx_mul_raw(ny, ms))
    }
}

fn bezier_weights(t: Fx) -> (w: (Fx, Fx, Fx, Fx))
    requires
        0 <= t.raw <= 65536,
    ensures
        w.0.raw == spec_cube(65536 - t.raw),
        w.1.raw == 3 * fx_mul_raw(
            fx_mul_raw(65536 - t.raw, 65536 - t.raw),
            t.raw as int,
        ),
        w.2.raw == 3 * fx_mul_raw(fx_mul_raw(t.raw as int, t.raw as int), 65536 - t.raw),
        w.3.raw == spec_cube(t.raw as int),
        0 <= w.0.raw <= 65536,
        0 <= w.1.raw <= 196608,
        0 <= w.2.raw <= 196608,
        0 <= w.3.raw <= 65536,
{
    let u: Fx = Fx { raw: 65536 - t.raw };
    proof {
        lemma_unit_mul_bound(u.raw as int, u.raw as int);
        lemma_unit_mul_bound(t.raw as int, t.raw as int);
    }
    let uu: Fx = u.times(u);
    let tt: Fx = t.times(t);
    proof {
        lemma_unit_mul_bound(uu.raw as int, u.raw as int);
        lemma_unit_mul_bound(uu.raw as int, t.raw as int);
        lemma_unit_mul_bound(tt.raw as int, u.raw as int);
        lemma_unit_mul_bound(tt.raw as int, t.raw as int);
    }
    let w0: Fx = uu.times(u);
    let w1: Fx = Fx { raw: 3 * uu.times(t).raw };
    let w2: Fx = Fx { raw: 3 * tt.times(u).raw };
    let w3: Fx = tt.times(t);
    (w0, w1, w2, w3)
}

fn bezier_term(w: Fx, coord: Fx) -> (r: Fx)
    requires
        0 <= w.raw <= 196608,
        coord.in_coord_range(),
    ensures
        r.raw == fx_mul_raw(w.raw as int, coord.raw as int),
        r.bounded(0x3000_0000_0000),
{
    proof {
        assert(-196608 * 0x1000_0000_0000 <= w.raw * coord.raw <= 196608 * 0x1000_0000_0000)
            by (nonlinear_arith)
            requires
                0 <= w.raw <= 196608,
                -0x1000_0000_0000 <= coord.raw <= 0x1000_0000_0000,
        ;
        lemma_div_65536_bound(w.raw * coord.raw, 0x3000_0000_0000);
    }
    w.times(coord)
}

/// Cubic Bezier evaluation in the weight order the tangent approximation
/// uses: the `t = 0` end of the weights sits at `p3`.
pub fn equation(t: Fx, p0: &Point, p1: &Point, p2: &Point, p3: &Point) -> (r: (Fx, Fx))
    requires
        0 <= t.raw <= 65536,
        p0.in_coord_range(),
        p1.in_coord_range(),
        p2.in_coord_range(),
        p3.in_coord_range(),
    ensures
        r.0.raw == spec_bezier_coord(
            t.raw as int,
            p0.x.raw as int,
            p1.x.raw as int,
            p2.x.raw as int,
            p3.x.raw as int,
        ),
        r.1.raw == spec_bezier_coord(
            t.raw as int,
            p0.y.raw as int,
            p1.y.raw as int,
            p2.y.raw as int,
            p3.y.raw as int,
        ),
        r.0.bounded(0xC000_0000_0000),
        r.1.bounded(0xC000_0000_0000),
{
    let (w0, w1, w2, w3) = bezier_weights(t);
    let x: Fx = bezier_term(w0, p3.x).plus(bezier_term(w1, p2.x)).plus(
        bezier_term(w2, p1.x),
    ).plus(bezier_term(w3, p0.x));
    let y: Fx = bezier_term(w0, p3.y).plus(bezier_term(w1, p2.y)).plus(
        bezier_term(w2, p1.y),
    ).plus(bezier_term(w3, p0.y));
    (x, y)
}

/// Rotates `point1` about `point2` by the angle with the given fixed-point
/// cosine and sine.
pub fn rotate(point1: Point, point2: Point, cos: Fx, sin: Fx) -> (r: Point)
    requires
        point1.x.bounded(0x2000_0000_0000),
        point1.y.bounded(0x2000_0000_0000),
        point2.in_coord_range(),
        cos.bounded(65536),
        sin.bounded(65536),
    ensures
        r == spec_rotate(point1, point2, cos.raw as int, sin.raw as int),
        r.x.bounded(0xA000_0000_0000),
        r.y.bounded(0xA000_0000_0000),
{
    let dx: Fx = point1.x.minus(point2.x);
    let dy: Fx = point1.y.minus(point2.y);
    proof {
        assert(-0x3000_0000_0000 * 65536 <= dx.raw * cos.raw <= 0x3000_0000_0000 * 65536)
            by (nonlinear_arith)
            requires
                -0x3000_0000_0000 <= dx.raw <= 0x3000_0000_0000,
                -65536 <= cos.raw <= 65536,
        ;
        assert(-0x3000_0000_0000 * 65536 <= dy.raw * cos.raw <= 0x3000_0000_0000 * 65536)
            by (nonlinear_arith)
            requires
                -0x3000_0000_0000 <= dy.raw <= 0x3000_0000_0000,
                -65536 <= cos.raw <= 65536,
        ;
        assert(-0x3000_0000_0000 * 65536 <= dx.raw * sin.raw <= 0x3000_0000_0000 * 65536)
            by (nonlinear_arith)
            requires
                -0x3000_0000_0000 <= dx.raw <= 0x3000_0000_0000,
                -65536 <= sin.raw <= 65536,
        ;
        assert(-0x3000_0000_0000 * 65536 <= dy.raw * sin.raw <= 0x3000_0000_0000 * 65536)
            by (nonlinear_arith)
            requires
                -0x3000_0000_0000 <= dy.raw <= 0x3000_0000_0000,
                -65536 <= sin.raw <= 65536,
        ;
        lemma_div_65536_bound(dx.raw * cos.raw, 0x3000_0000_0000);
        lemma_div_65536_bound(dy.raw * cos.raw, 0x3000_0000_0000);
        lemma_div_65536_bound(dx.raw * sin.raw, 0x3000_0000_0000);
        lemma_div_65536_bound(dy.raw * sin.raw, 0x3000_0000_0000);
    }
    let x: Fx = dx.times(cos).minus(dy.times(sin)).plus(point2.x);
    let y: Fx = dx.times(sin).plus(dy.times(cos)).plus(point2.y);
    Point::new(x, y)
}

/// True when every point a command holds lies in the coordinate range.
pub open spec fn cmd_in_range(c: PathCmd) -> bool {
    match c {
        PathCmd::MoveTo(p) => p.in_coord_range(),
        PathCmd::LineTo(p) => p.in_coord_range(),
        PathCmd::QuadTo(a, b) => a.in_coord_range() && b.in_coord_range(),
        PathCmd::CurveTo(a, b, p) => a.in_coord_range() && b.in_coord_range()
            && p.in_coord_range(),
        PathCmd::Close => true,
    }
}

/// The terminal endpoint and tangent point of a generated path.
pub fn get_start_and_end_point(cmds: &Vec<PathCmd>, is_start: bool) -> (r: (Point, Point))
    requires
        cmds@.len() >= 2,
        forall|i: int| 0 <= i < cmds@.len() ==> cmd_in_range(#[trigger] cmds@[i]),
    ensures
        r == spec_start_end(cmds@, is_start),
        r.0.in_coord_range(),
        r.1.x.bounded(0xC000_0000_0000),
        r.1.y.bounded(0xC000_0000_0000),
{
    let index: usize = if is_start {
        1
    } else {
        cmds.len() - 1
    };
    let origin: Point = Point::new(Fx::zero(), Fx::zero());
    let (p1, p2, p3): (Point, Point, Point) = match cmds[index] {
        PathCmd::CurveTo(a, b, p) => (a, b, p),
        _ => (origin, origin, origin),
    };
    let p0: Point = match cmds[index - 1] {
        PathCmd::MoveTo(p) => p,
        PathCmd::CurveTo(_, _, p) => p,
        _ => origin,
    };
    let (x1, y1) = equation(Fx { raw: 19661 }, &p0, &p1, &p2, &p3);
    let end_point: Point = Point::new(x1, y1);
    let start_point: Point = if is_start {
        p0
    } else {
        p3
    };
    (start_point, end_point)
}

/// The marker base point for one path end.
pub fn get_arrow_point(start_point: Point, end_point: Point, length: Fx, size: Fx) -> (r: Point)
    requires
        start_point.in_coord_range(),
        end_point.x.bounded(0xC000_0000_0000),
        end_point.y.bounded(0xC000_0000_0000),
        0 <= length.raw <= 0x4000_0000_0000_0000,
        0 <= size.raw <= 0x200000,
    ensures
        r == spec_arrow_point(
            start_point,
            end_point,
            length.raw as int,
            size.raw as int,
        ),
        start_point.x.raw - size.raw <= r.x.raw <= start_point.x.raw + size.raw,
        start_point.y.raw - size.raw <= r.y.raw <= start_point.y.raw + size.raw,
{
    let dx: Fx = start_point.x.minus(end_point.x);
    let dy: Fx = start_point.y.minus(end_point.y);
    let dist: Fx = dx.hypot_with(dy);
    if dist.raw == 0 {
        start_point
    } else {
        proof {
            assert(dx.raw * dx.raw <= dist.raw * dist.raw + 2 * dist.raw) by {
                assert(dx.raw * dx.raw <= dx.raw * dx.raw + dy.raw * dy.raw) by (nonlinear_arith);
                assert((dist.raw + 1) * (dist.raw + 1) == dist.raw * dist.raw + 2 * dist.raw + 1)
                    by (nonlinear_arith);
            };
            assert(-dist.raw <= dx.raw <= dist.raw) by (nonlinear_arith)
                requires
                    dx.raw * dx.raw <= dist.raw * dist.raw + 2 * dist.raw,
                    dist.raw >= 1,
            ;
            assert(dy.raw * dy.raw <= dist.raw * dist.raw + 2 * dist.raw) by {
                assert(dy.raw * dy.raw <= dx.raw * dx.raw + dy.raw * dy.raw) by (nonlinear_arith);
                assert((dist.raw + 1) * (dist.raw + 1) == dist.raw * dist.raw + 2 * dist.raw + 1)
                    by (nonlinear_arith);
            };
            assert(-dist.raw <= dy.raw <= dist.raw) by (nonlinear_arith)
                requires
                    dy.raw * dy.raw <= dist.raw * dist.raw + 2 * dist.raw,
                    dist.raw >= 1,
            ;
            assert(-0x4000_0000_0000_0000 * dist.raw <= dx.raw * 65536 <= 0x4000_0000_0000_0000
                * dist.raw) by (nonlinear_arith)
                requires
                    -dist.raw <= dx.raw <= dist.raw,
                    dist.raw >= 1,
            ;
            assert(-0x4000_0000_0000_0000 * dist.raw <= dy.raw * 65536 <= 0x4000_0000_0000_0000
                * dist.raw) by (nonlinear_arith)
                requires
                    -dist.raw <= dy.raw <= dist.raw,
                    dist.raw >= 1,
            ;
        }
        let nx_raw: i64 = crate::fixed::floor_div_i128(
            (dx.raw as i128) * 65536,
            dist.raw as u64,
        );
        let ny_raw: i64 = crate::fixed::floor_div_i128(
            (dy.raw as i128) * 65536,
            dist.raw as u64,
        );
        proof {
            lemma_norm_component_bound(dx.raw as int, dist.raw as int);
            lemma_norm_component_bound(dy.raw as int, dist.raw as int);
        }
        let half_len: Fx = length.shrink(2);
        let min_size: Fx = size.min_of(half_len);
        proof {
            assert(-65536 * min_size.raw <= nx_raw * min_size.raw <= 65536 * min_size.raw)
                by (nonlinear_arith)
                requires
                    -65536 <= nx_raw <= 65536,
                    min_size.raw >= 0,
            ;
            assert(-65536 * min_size.raw <= ny_raw * min_size.raw <= 65536 * min_size.raw)
                by (nonlinear_arith)
                requires
                    -65536 <= ny_raw <= 65536,
                    min_size.raw >= 0,
            ;
            lemma_div_65536_bound(nx_raw * min_size.raw, min_size.raw as int);
            lemma_div_65536_bound(ny_raw * min_size.raw, min_size.raw as int);
        }
        let ox: Fx = Fx { raw: nx_raw }.times(min_size);
        let oy: Fx = Fx { raw: ny_raw }.times(min_size);
        Point::new(start_point.x.minus(ox), start_point.y.minus(oy))
    }
}

/// A component of a vector is no longer than the vector, so its normalized
/// form stays within one unit.
proof fn lemma_norm_component_bound(c: int, d: int)
    requires
        d >= 1,
        -d <= c <= d,
    ensures
        -65536 <= (c * 65536) / d <= 65536,
{
    assert(c * 65536 <= d * 65536) by (nonlinear_arith)
        requires
            c <= d,
    ;
    assert(-(d * 65536) <= c * 65536) by (nonlinear_arith)
        requires
            -d <= c,
    ;
    vstd::arithmetic::div_mod::lemma_fundamental_div_mod_converse(d * 65536, d, 65536, 0);
    vstd::arithmetic::div_mod::lemma_fundamental_div_mod_converse(-(d * 65536), d, -65536, 0);
    vstd::arithmetic::div_mod::lemma_div_is_ordered(c * 65536, d * 65536, d);
    vstd::arithmetic::div_mod::lemma_div_is_ordered(-(d * 65536), c * 65536, d);
}

/// Distances are bounded by three times the coordinate bound of their
/// endpoints.
proof fn lemma_dist_bound(d: int, ax: int, ay: int, bx: int, by: int, b: int)
    requires
        d >= 0,
        b >= 0,
        d * d <= (bx - ax) * (bx - ax) + (by - ay) * (by - ay),
        -b <= ax <= b,
        -b <= ay <= b,
        -b <= bx <= b,
        -b <= by <= b,
    ensures
        d <= 3 * b,
{
    assert((bx - ax) * (bx - ax) <= (2 * b) * (2 * b)) by (nonlinear_arith)
        requires
            -2 * b <= bx - ax <= 2 * b,
    ;
    assert((by - ay) * (by - ay) <= (2 * b) * (2 * b)) by (nonlinear_arith)
        requires
            -2 * b <= by - ay <= 2 * b,
    ;
    assert(d <= 3 * b) by (nonlinear_arith)
        requires
            d >= 0,
            b >= 0,
            d * d <= 2 * ((2 * b) * (2 * b)),
    ;
}

/// Total length of the declared polyline of an element, in raw units.
fn polyline_length(ps: &Vec<Point>) -> (r: Fx)
    requires
        ps@.len() <= 0x10000,
        forall|i: int| 0 <= i < ps@.len() ==> (#[trigger] ps@[i]).in_coord_range(),
    ensures
        r.raw == spec_polyline_len(ps@),
        0 <= r.raw <= 0x4000_0000_0000_0000,
{
    let mut length: Fx = Fx::zero();
    if ps.len() < 2 {
        proof {
            assert(ps@.take(ps@.len() as int) =~= ps@);
        }
        return length;
    }
    let mut index: usize = 1;
    while index < ps.len()
        invariant
            1 <= index <= ps@.len() <= 0x10000,
            forall|i: int| 0 <= i < ps@.len() ==> (#[trigger] ps@[i]).in_coord_range(),
            length.raw == spec_polyline_len(ps@.take(index as int)),
            0 <= length.raw <= (index - 1) * 0x3000_0000_0000,
        decreases ps@.len() - index,
    {
        let prev: Point = ps[index - 1];
        let here: Point = ps[index];
        let d: Fx = distance2d(&prev, &here);
        proof {
            lemma_dist_bound(
                d.raw as int,
                prev.x.raw as int,
                prev.y.raw as int,
                here.x.raw as int,
                here.y.raw as int,
                0x1000_0000_0000,
            );
            let taken = ps@.take(index + 1);
            assert(taken.drop_last() =~= ps@.take(index as int));
            assert(taken[taken.len() - 2] == ps@[index - 1]);
            assert(taken[taken.len() - 1] == ps@[index as int]);
        }
        length = length.plus(d);
        index = index + 1;
    }
    proof {
        assert(ps@.take(ps@.len() as int) =~= ps@);
    }
    length
}

/// Shaft length for an `Arrow` marker: the last drawn segment.
fn arrow_length(element: &Element) -> (r: Fx)
    requires
        element.wf(),
    ensures
        r.raw == spec_arrow_length(*element),
        0 <= r.raw <= 0x4000_0000_0000_0000,
{
    let ps: Vec<Point> = crate::draw::line::path_points(element);
    proof {
        lemma_path_points_in_range(*element);
    }
    let p1: Point = ps[ps.len() - 1];
    let p2: Point = ps[ps.len() - 2];
    let d: Fx = distance2d(&p2, &p1);
    proof {
        lemma_dist_bound(
            d.raw as int,
            p2.x.raw as int,
            p2.y.raw as int,
            p1.x.raw as int,
            p1.y.raw as int,
            0x1000_0000_0000,
        );
    }
    d
}

/// The drawn path points of a well-formed element stay in the coordinate
/// range and are few enough to sum over.
proof fn lemma_path_points_in_range(e: Element)
    requires
        e.wf(),
    ensures
        crate::draw::line::spec_path_points(e).len() <= 0x10000,
        forall|i: int|
            0 <= i < crate::draw::line::spec_path_points(e).len() ==> (
            #[trigger] crate::draw::line::spec_path_points(e)[i]).in_coord_range(),
{
    let ps = crate::draw::line::spec_path_points(e);
    assert forall|i: int| 0 <= i < ps.len() implies (#[trigger] ps[i]).in_coord_range() by {
        match e.points {
            Some(declared) => {
                if declared@.len() >= 2 {
                    assert(ps[i] == declared@[i]);
                }
            },
            None => {},
        }
    }
}

/// Shaft length for `Bar`, `Dot` and `Triangle` markers: the whole drawn
/// polyline.
fn total_length(element: &Element) -> (r: Fx)
    requires
        element.wf(),
    ensures
        r.raw == spec_total_length(*element),
        0 <= r.raw <= 0x4000_0000_0000_0000,
{
    let ps: Vec<Point> = crate::draw::line::path_points(element);
    proof {
        lemma_path_points_in_range(*element);
    }
    polyline_length(&ps)
}

/// The `Arrow` marker: the path endpoint and the two wing points, fanned
/// out twenty degrees to each side of the shaft direction.
pub open spec fn spec_arrow_head(cmds: Seq<PathCmd>, e: Element, is_start: bool) -> (
    Point,
    Point,
    Point,
) {
    let se = spec_start_end(cmds, is_start);
    let ap = spec_arrow_point(se.0, se.1, spec_arrow_length(e), 1966080);
    (se.0, spec_rotate(ap, se.0, 61584, -22415), spec_rotate(ap, se.0, 61584, 22415))
}

/// The `Bar` marker: the path endpoint and the two ends of a perpendicular
/// bar, ninety degrees to each side.
pub open spec fn spec_bar_head(cmds: Seq<PathCmd>, e: Element, is_start: bool) -> (
    Point,
    Point,
    Point,
) {
    let se = spec_start_end(cmds, is_start);
    let ap = spec_arrow_point(se.0, se.1, spec_total_length(e), 983040);
    (se.0, spec_rotate(ap, se.0, 0, -65536), spec_rotate(ap, se.0, 0, 65536))
}

/// The `Triangle` marker: the path endpoint and the two wing points,
/// twenty-five degrees to each side.
pub open spec fn spec_triangle_head(cmds: Seq<PathCmd>, e: Element, is_start: bool) -> (
    Point,
    Point,
    Point,
) {
    let se = spec_start_end(cmds, is_start);
    let ap = spec_arrow_point(se.0, se.1, spec_total_length(e), 983040);
    (se.0, spec_rotate(ap, se.0, 59396, -27697), spec_rotate(ap, se.0, 59396, 27697))
}

/// The `Dot` marker: the path endpoint and the circle size, the distance to
/// the marker base point plus the stroke width.
pub open spec fn spec_dot_head(cmds: Seq<PathCmd>, e: Element, is_start: bool) -> (Point, int) {
    let se = spec_start_end(cmds, is_start);
    let ap = spec_arrow_point(se.0, se.1, spec_total_length(e), 983040);
    (se.0, spec_dist(se.0, ap) + e.stroke_width.raw)
}

/// Generates the `Arrow` marker geometry for one end of the shaft path.
pub fn get_arrow_arrowhead_point(cmds: &Vec<PathCmd>, element: &Element, is_start: bool) -> (r: (
    Point,
    Point,
    Point,
))
    requires
        element.wf(),
        cmds@.len() >= 2,
        forall|i: int| 0 <= i < cmds@.len() ==> cmd_in_range(#[trigger] cmds@[i]),
    ensures
        r == spec_arrow_head(cmds@, *element, is_start),
{
    let (start_point, end_point) = get_start_and_end_point(cmds, is_start);
    let length: Fx = arrow_length(element);
    let arrow_point: Point = get_arrow_point(start_point, end_point, length, Fx { raw: 1966080 });
    let point1: Point = rotate(arrow_point, start_point, Fx { raw: 61584 }, Fx { raw: -22415 });
    let point2: Point = rotate(arrow_point, start_point, Fx { raw: 61584 }, Fx { raw: 22415 });
    (start_point, point1, point2)
}

/// Generates the `Bar` marker geometry for one end of the shaft path.
pub fn get_bar_arrowhead_point(cmds: &Vec<PathCmd>, element: &Element, is_start: bool) -> (r: (
    Point,
    Point,
    Point,
))
    requires
        element.wf(),
        cmds@.len() >= 2,
        forall|i: int| 0 <= i < cmds@.len() ==> cmd_in_range(#[trigger] cmds@[i]),
    ensures
        r == spec_bar_head(cmds@, *element, is_start),
{
    let (start_point, end_point) = get_start_and_end_point(cmds, is_start);
    let length: Fx = total_length(element);
    let arrow_point: Point = get_arrow_point(start_point, end_point, length, Fx { raw: 983040 });
    let point1: Point = rotate(arrow_point, start_point, Fx { raw: 0 }, Fx { raw: -65536 });
    let point2: Point = rotate(arrow_point, start_point, Fx { raw: 0 }, Fx { raw: 65536 });
    (start_point, point1, point2)
}

/// Generates the `Triangle` marker geometry for one end of the shaft path.
pub fn get_triangle_arrowhead_point(cmds: &Vec<PathCmd>, element: &Element, is_start: bool) -> (r:
    (Point, Point, Point))
    requires
        element.wf(),
        cmds@.len() >= 2,
        forall|i: int| 0 <= i < cmds@.len() ==> cmd_in_range(#[trigger] cmds@[i]),
    ensures
        r == spec_triangle_head(cmds@, *element, is_start),
{
    let (start_point, end_point) = get_start_and_end_point(cmds, is_start);
    let length: Fx = total_length(element);
    let arrow_point: Point = get_arrow_point(start_point, end_point, length, Fx { raw: 983040 });
    let point1: Point = rotate(arrow_point, start_point, Fx { raw: 59396 }, Fx { raw: -27697 });
    let point2: Point = rotate(arrow_point, start_point, Fx { raw: 59396 }, Fx { raw: 27697 });
    (start_point, point1, point2)
}

/// Generates the `Dot` marker geometry for one end of the shaft path.
pub fn get_dot_arrowhead_point(cmds: &Vec<PathCmd>, element: &Element, is_start: bool) -> (r: (
    Point,
    Fx,
))
    requires
        element.wf(),
        cmds@.len() >= 2,
        forall|i: int| 0 <= i < cmds@.len() ==> cmd_in_range(#[trigger] cmds@[i]),
    ensures
        r.0 == spec_dot_head(cmds@, *element, is_start).0,
        r.1.raw == spec_dot_head(cmds@, *element, is_start).1,
{
    let (start_point, end_point) = get_start_and_end_point(cmds, is_start);
    let length: Fx = total_length(element);
    let arrow_point: Point = get_arrow_point(start_point, end_point, length, Fx { raw: 983040 });
    let d: Fx = distance2d(&start_point, &arrow_point);
    proof {
        lemma_dist_bound(
            d.raw as int,
            start_point.x.raw as int,
            start_point.y.raw as int,
            arrow_point.x.raw as int,
            arrow_point.y.raw as int,
            0x2000_0000_0000,
        );
    }
    (start_point, d.plus(element.stroke_width))
}

/// A draw operation translated into the element's local frame.
pub open spec fn op_translated(op: DrawOp, e: Element, cfg: DrawConfig) -> bool {
    op.translate_x.raw == e.x.raw + cfg.offset_x.raw && op.translate_y.raw == e.y.raw
        + cfg.offset_y.raw
}

/// Style of a wing segment: the shaft style with a transparent fill.
pub open spec fn wing_options(o: Options, e: Element) -> bool {
    &&& crate::draw::utils::options_core(o, e, e.roundness is Some)
    &&& o.fill == (Rgba { red: 0, green: 0, blue: 0, alpha: 0 })
    &&& o.curve_fitting is None
}

/// Style of a `Dot` marker: solid-filled with the stroke color.
pub open spec fn dot_options(o: Options, e: Element) -> bool {
    &&& options_base(o, e, e.roundness is Some)
    &&& o.fill_style is Solid
    &&& o.stroke_line_dash@ == spec_dash(e.stroke_style, e.stroke_width.raw as int)
    &&& o.fill == spec_resolve_color(e.stroke_color@, e.opacity)
    &&& o.curve_fitting is None
}

/// Style of a `Triangle` marker: solid-filled with the stroke color and
/// dashing forced off.
pub open spec fn triangle_options(o: Options, e: Element) -> bool {
    &&& options_base(o, e, e.roundness is Some)
    &&& o.fill_style is Solid
    &&& o.stroke_line_dash@ == Seq::<Fx>::empty()
    &&& o.fill == spec_resolve_color(e.stroke_color@, e.opacity)
    &&& o.curve_fitting is None
}

/// Two open wing segments drawn from each wing point to the path endpoint.
pub open spec fn wing_pair_matches(
    ops: Seq<DrawOp>,
    head: (Point, Point, Point),
    e: Element,
    cfg: DrawConfig,
) -> bool {
    &&& ops.len() == 2
    &&& op_translated(ops[0], e, cfg)
    &&& wing_options(ops[0].options, e)
    &&& (ops[0].shape matches ShapeKind::LinearPath { points, close } && points@ == seq![
        head.1,
        head.0,
    ] && close == true)
    &&& op_translated(ops[1], e, cfg)
    &&& wing_options(ops[1].options, e)
    &&& (ops[1].shape matches ShapeKind::LinearPath { points, close } && points@ == seq![
        head.2,
        head.0,
    ] && close == true)
}

/// What the marker operations of one shaft end must be, by arrowhead kind.
pub open spec fn marker_ops_match(
    ops: Seq<DrawOp>,
    cmds: Seq<PathCmd>,
    e: Element,
    cfg: DrawConfig,
    is_start: bool,
) -> bool {
    let head_kind = if is_start {
        e.start_arrowhead
    } else {
        e.end_arrowhead
    };
    match head_kind {
        None => ops.len() == 0,
        Some(Arrowhead::Arrow) => wing_pair_matches(ops, spec_arrow_head(cmds, e, is_start), e, cfg),
        Some(Arrowhead::Bar) => wing_pair_matches(ops, spec_bar_head(cmds, e, is_start), e, cfg),
        Some(Arrowhead::Dot) => {
            let h = spec_dot_head(cmds, e, is_start);
            &&& ops.len() == 1
            &&& op_translated(ops[0], e, cfg)
            &&& dot_options(ops[0].options, e)
            &&& (ops[0].shape matches ShapeKind::Circle { x, y, diameter } && x == h.0.x && y
                == h.0.y && diameter.raw == h.1)
        },
        Some(Arrowhead::Triangle) => {
            let h = spec_triangle_head(cmds, e, is_start);
            &&& ops.len() == 1
            &&& op_translated(ops[0], e, cfg)
            &&& triangle_options(ops[0].options, e)
            &&& (ops[0].shape matches ShapeKind::Polygon { points } && points@ == seq![
                h.0,
                h.1,
                h.2,
                h.0,
            ])
        },
    }
}

/// How many draw operations a marker contributes.
pub open spec fn spec_marker_count(head: Option<Arrowhead>) -> int {
    match head {
        None => 0,
        Some(Arrowhead::Arrow) => 2,
        Some(Arrowhead::Bar) => 2,
        Some(Arrowhead::Dot) => 1,
        Some(Arrowhead::Triangle) => 1,
    }
}

fn wing_op(element: &Element, tx: Fx, ty: Fx, a: Point, b: Point) -> (op: DrawOp)
    requires
        element.wf(),
    ensures
        op.translate_x == tx,
        op.translate_y == ty,
        wing_options(op.options, *element),
        op.shape matches ShapeKind::LinearPath { points, close } && points@ == seq![a, b] && close
            == true,
{
    let base: Options = default_options_generator(element, element.roundness.is_some());
    let options: Options = Options { fill: Rgba { red: 0, green: 0, blue: 0, alpha: 0 }, ..base };
    let mut points: Vec<Point> = Vec::new();
    points.push(a);
    points.push(b);
    proof {
        assert(points@ =~= seq![a, b]);
    }
    DrawOp { translate_x: tx, translate_y: ty, options, shape: ShapeKind::LinearPath { points, close: true } }
}

/// The marker operations of one end of the shaft path, in the order they
/// are drawn.
pub fn marker_ops_for(
    element: &Element,
    config: &DrawConfig,
    cmds: &Vec<PathCmd>,
    is_start: bool,
) -> (r: Vec<DrawOp>)
    requires
        element.wf(),
        config.wf(),
        cmds@.len() >= 2,
        forall|i: int| 0 <= i < cmds@.len() ==> cmd_in_range(#[trigger] cmds@[i]),
    ensures
        marker_ops_match(r@, cmds@, *element, *config, is_start),
        r@.len() == spec_marker_count(
            if is_start {
                element.start_arrowhead
            } else {
                element.end_arrowhead
            },
        ),
{
    let head: Option<Arrowhead> = if is_start {
        element.start_arrowhead
    } else {
        element.end_arrowhead
    };
    let tx: Fx = element.x.plus(config.offset_x);
    let ty: Fx = element.y.plus(config.offset_y);
    let mut ops: Vec<DrawOp> = Vec::new();
    match head {
        None => {},
        Some(Arrowhead::Arrow) => {
            let (point1, point2, point3) = get_arrow_arrowhead_point(cmds, element, is_start);
            ops.push(wing_op(element, tx, ty, point2, point1));
            ops.push(wing_op(element, tx, ty, point3, point1));
        },
        Some(Arrowhead::Bar) => {
            let (point1, point2, point3) = get_bar_arrowhead_point(cmds, element, is_start);
            ops.push(wing_op(element, tx, ty, point2, point1));
            ops.push(wing_op(element, tx, ty, point3, point1));
        },
        Some(Arrowhead::Dot) => {
            let (point, radius) = get_dot_arrowhead_point(cmds, element, is_start);
            let base: Options = default_options_generator(element, element.roundness.is_some());
            let stroke_color: Rgba = match crate::draw::utils::srgba_from_hex(
                element.stroke_color.as_str(),
                element.opacity,
            ) {
                Some(c) => c,
                None => Rgba { red: 0, green: 0, blue: 0, alpha: 0 },
            };
            let options: Options = Options {
                fill: stroke_color,
                fill_style: FillStyle::Solid,
                ..base
            };
            ops.push(
                DrawOp {
                    translate_x: tx,
                    translate_y: ty,
                    options,
                    shape: ShapeKind::Circle { x: point.x, y: point.y, diameter: radius },
                },
            );
        },
        Some(Arrowhead::Triangle) => {
            let (point1, point2, point3) = get_triangle_arrowhead_point(cmds, element, is_start);
            let base: Options = default_options_generator(element, element.roundness.is_some());
            let stroke_color: Rgba = match crate::draw::utils::srgba_from_hex(
                element.stroke_color.as_str(),
                element.opacity,
            ) {
                Some(c) => c,
                None => Rgba { red: 0, green: 0, blue: 0, alpha: 0 },
            };
            let options: Options = Options {
                fill: stroke_color,
                fill_style: FillStyle::Solid,
                stroke_line_dash: Vec::new(),
                ..base
            };
            let mut points: Vec<Point> = Vec::new();
            points.push(point1);
            points.push(point2);
            points.push(point3);
            points.push(point1);
            proof {
                assert(points@ =~= seq![point1, point2, point3, point1]);
            }
            ops.push(
                DrawOp {
                    translate_x: tx,
                    translate_y: ty,
                    options,
                    shape: ShapeKind::Polygon { points },
                },
            );
        },
    }
    ops
}

/// All marker operations of an arrow, start end first, in the order they
/// are drawn before the shaft.
pub fn marker_ops(element: &Element, config: &DrawConfig, cmds: &Vec<PathCmd>) -> (r: Vec<DrawOp>)
    requires
        element.wf(),
        config.wf(),
        cmds@.len() >= 2,
        forall|i: int| 0 <= i < cmds@.len() ==> cmd_in_range(#[trigger] cmds@[i]),
    ensures
        r@.len() == spec_marker_count(element.start_arrowhead) + spec_marker_count(
            element.end_arrowhead,
        ),
        marker_ops_match(
            r@.take(spec_marker_count(element.start_arrowhead)),
            cmds@,
            *element,
            *config,
            true,
        ),
        marker_ops_match(
            r@.skip(spec_marker_count(element.start_arrowhead)),
            cmds@,
            *element,
            *config,
            false,
        ),
{
    let mut ops: Vec<DrawOp> = marker_ops_for(element, config, cmds, true);
    let mut more: Vec<DrawOp> = marker_ops_for(element, config, cmds, false);
    let ghost start_ops: Seq<DrawOp> = ops@;
    let ghost end_ops: Seq<DrawOp> = more@;
    ops.append(&mut more);
    proof {
        assert(ops@.take(spec_marker_count(element.start_arrowhead)) =~= start_ops);
        assert(ops@.skip(spec_marker_count(element.start_arrowhead)) =~= end_ops);
    }
    ops
}

/// Plans the arrow shaft: exactly the plan of a line through the same
/// points, drawn after all markers.
pub fn draw(element: &Element, config: &DrawConfig) -> (op: DrawOp)
    requires
        element.wf(),
        config.wf(),
    ensures
        op.translate_x.raw == element.x.raw + config.offset_x.raw,
        op.translate_y.raw == element.y.raw + config.offset_y.raw,
        crate::draw::utils::options_core(op.options, *element, element.roundness is Some),
        op.options.fill == (Rgba { red: 0, green: 0, blue: 0, alpha: 0 }),
        op.options.curve_fitting is None,
        match element.roundness {
            Some(_) => op.shape matches ShapeKind::Curve { points } && points@
                == crate::draw::line::spec_path_points(*element),
            None => op.shape matches ShapeKind::LinearPath { points, close } && points@
                == crate::draw::line::spec_path_points(*element) && close == false,
        },
{
    crate::draw::line::draw(element, config)
}

} // verus!
