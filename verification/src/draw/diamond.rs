//! The diamond drawer.

use vstd::prelude::*;
use crate::draw::utils::{default_options_generator, get_corner_radius, options_match, spec_corner_radius};
use crate::draw::{DrawConfig, DrawOp, PathCmd, ShapeKind};
use crate::element::Element;
use crate::fixed::Fx;
use crate::point::{pt_raw, Point};

verus! {

/// Raw x coordinate of the top (and bottom) apex: half the width, floored to
/// a whole unit, plus one unit.
pub open spec fn spec_top_x(w: int) -> int {
    ((w / 2) / 65536) * 65536 + 65536
}

/// Raw y coordinate of the right (and left) apex: half the height, floored
/// to a whole unit, plus one unit.
pub open spec fn spec_right_y(h: int) -> int {
    ((h / 2) / 65536) * 65536 + 65536
}

/// The ideal outline of a rounded diamond: the four apex-to-apex edges
/// shortened by the policy radii and joined by cubic corner arcs, in raw
/// units and local coordinates.  `vr` and `hr` are the radii of the
/// vertical and horizontal spans.
pub open spec fn spec_rounded_diamond_cmds(w: int, h: int, vr: int, hr: int) -> Seq<PathCmd> {
    let tx: int = spec_top_x(w);
    let ty: int = 0;
    let rx: int = w;
    let ry: int = spec_right_y(h);
    let bx: int = tx;
    let by: int = h;
    let lx: int = 0;
    let ly: int = ry;
    seq![
        PathCmd::MoveTo(pt_raw(tx + vr, ty + hr)),
        PathCmd::LineTo(pt_raw(rx - vr, ry - hr)),
        PathCmd::CurveTo(pt_raw(rx, ry), pt_raw(rx, ry), pt_raw(rx - vr, ry + hr)),
        PathCmd::LineTo(pt_raw(bx + vr, by - hr)),
        PathCmd::CurveTo(pt_raw(bx, by), pt_raw(bx, by), pt_raw(bx - vr, by - hr)),
        PathCmd::LineTo(pt_raw(lx + vr, ly + hr)),
        PathCmd::CurveTo(pt_raw(lx, ly), pt_raw(lx, ly), pt_raw(lx + vr, ly - hr)),
        PathCmd::LineTo(pt_raw(tx - vr, ty + hr)),
        PathCmd::CurveTo(pt_raw(tx, ty), pt_raw(tx, ty), pt_raw(tx + vr, ty + hr)),
    ]
}

/// The four apexes of an element's diamond in local coordinates, in the
/// order top, right, bottom, left.
pub fn get_diamond_points(element: &Element) -> (r: (Fx, Fx, Fx, Fx, Fx, Fx, Fx, Fx))
    requires
        element.wf(),
    ensures
        r.0.raw == spec_top_x(element.width.raw as int),
        r.1.raw == 0,
        r.2 == element.width,
        r.3.raw == spec_right_y(element.height.raw as int),
        r.4 == r.0,
        r.5 == element.height,
        r.6.raw == 0,
        r.7 == r.3,
{
    let top_x: Fx = element.width.shrink(2).floor_units().plus(Fx { raw: 65536 });
    let top_y: Fx = Fx::zero();
    let right_x: Fx = element.width;
    let right_y: Fx = element.height.shrink(2).floor_units().plus(Fx { raw: 65536 });
    let bottom_x: Fx = top_x;
    let bottom_y: Fx = element.height;
    let left_x: Fx = Fx::zero();
    let left_y: Fx = right_y;
    (top_x, top_y, right_x, right_y, bottom_x, bottom_y, left_x, left_y)
}

/// Plans one diamond: the four-apex polygon when no roundness is declared,
/// else the rounded outline whose radii follow the vertical and horizontal
/// apex spans.
pub fn draw(element: &Element, config: &DrawConfig) -> (op: DrawOp)
    requires
        element.wf(),
        config.wf(),
    ensures
        op.translate_x.raw == element.x.raw + config.offset_x.raw,
        op.translate_y.raw == element.y.raw + config.offset_y.raw,
        options_match(op.options, *element, element.roundness is Some),
        match element.roundness {
            Some(roundness) => op.shape matches ShapeKind::Path { cmds } && cmds@
                == spec_rounded_diamond_cmds(
                element.width.raw as int,
                element.height.raw as int,
                spec_corner_radius(spec_top_x(element.width.raw as int), roundness),
                spec_corner_radius(
                    spec_right_y(element.height.raw as int),
                    roundness,
                ),
            ),
            None => op.shape matches ShapeKind::Polygon { points } && points@ == seq![
                pt_raw(spec_top_x(element.width.raw as int), 0),
                pt_raw(element.width.raw as int, spec_right_y(element.height.raw as int)),
                pt_raw(spec_top_x(element.width.raw as int), element.height.raw as int),
                pt_raw(0, spec_right_y(element.height.raw as int)),
            ],
        },
{
    let options = default_options_generator(element, element.roundness.is_some());
    let (top_x, top_y, right_x, right_y, bottom_x, bottom_y, left_x, left_y) = get_diamond_points(
        element,
    );
    let shape: ShapeKind = match &element.roundness {
        Some(roundness) => {
            let vr: Fx = get_corner_radius(top_x.minus(left_x).abs(), roundness);
            let hr: Fx = get_corner_radius(right_y.minus(top_y).abs(), roundness);
            let mut cmds: Vec<PathCmd> = Vec::new();
            cmds.push(PathCmd::MoveTo(Point::new(top_x.plus(vr), top_y.plus(hr))));
            cmds.push(PathCmd::LineTo(Point::new(right_x.minus(vr), right_y.minus(hr))));
            cmds.push(
                PathCmd::CurveTo(
                    Point::new(right_x, right_y),
                    Point::new(right_x, right_y),
                    Point::new(right_x.minus(vr), right_y.plus(hr)),
                ),
            );
            cmds.push(PathCmd::LineTo(Point::new(bottom_x.plus(vr), bottom_y.minus(hr))));
            cmds.push(
                PathCmd::CurveTo(
                    Point::new(bottom_x, bottom_y),
                    Point::new(bottom_x, bottom_y),
                    Point::new(bottom_x.minus(vr), bottom_y.minus(hr)),
                ),
            );
            cmds.push(PathCmd::LineTo(Point::new(left_x.plus(vr), left_y.plus(hr))));
            cmds.push(
                PathCmd::CurveTo(
                    Point::new(left_x, left_y),
                    Point::new(left_x, left_y),
                    Point::new(left_x.plus(vr), left_y.minus(hr)),
                ),
            );
            cmds.push(PathCmd::LineTo(Point::new(top_x.minus(vr), top_y.plus(hr))));
            cmds.push(
                PathCmd::CurveTo(
                    Point::new(top_x, top_y),
                    Point::new(top_x, top_y),
                    Point::new(top_x.plus(vr), top_y.plus(hr)),
                ),
            );
            proof {
                assert(cmds@ =~= spec_rounded_diamond_cmds(
                    element.width.raw as int,
                    element.height.raw as int,
                    vr.raw as int,
                    hr.raw as int,
                ));
            }
            ShapeKind::Path { cmds }
        },
        None => {
            let mut points: Vec<Point> = Vec::new();
            points.push(Point::new(top_x, top_y));
            points.push(Point::new(right_x, right_y));
            points.push(Point::new(bottom_x, bottom_y));
            points.push(Point::new(left_x, left_y));
            proof {
                assert(points@ =~= seq![
                    pt_raw(spec_top_x(element.width.raw as int), 0),
                    pt_raw(element.width.raw as int, spec_right_y(element.height.raw as int)),
                    pt_raw(spec_top_x(element.width.raw as int), element.height.raw as int),
                    pt_raw(0, spec_right_y(element.height.raw as int)),
                ]);
            }
            ShapeKind::Polygon { points }
        },
    };
    DrawOp {
        translate_x: element.x.plus(config.offset_x),
        translate_y: element.y.plus(config.offset_y),
        options,
        shape,
    }
}

} // verus!
