//! The rectangle drawer.

use vstd::prelude::*;
use crate::draw::utils::{default_options_generator, get_corner_radius, options_match, spec_corner_radius};
use crate::draw::{DrawConfig, DrawOp, PathCmd, ShapeKind};
use crate::element::Element;
use crate::fixed::Fx;
use crate::point::{pt_raw, Point};

verus! {

/// The ideal outline of a `w` by `h` rectangle whose corners are rounded
/// with radius `r`: straight edges joined by quadratic corner arcs, all in
/// raw units and local coordinates.
pub open spec fn spec_rounded_rect_cmds(w: int, h: int, r: int) -> Seq<PathCmd> {
    seq![
        PathCmd::MoveTo(pt_raw(r, 0)),
        PathCmd::LineTo(pt_raw(w - r, 0)),
        PathCmd::QuadTo(pt_raw(w, 0), pt_raw(w, r)),
        PathCmd::LineTo(pt_raw(w, h - r)),
        PathCmd::QuadTo(pt_raw(w, h), pt_raw(w - r, h)),
        PathCmd::LineTo(pt_raw(r, h)),
        PathCmd::QuadTo(pt_raw(0, h), pt_raw(0, h - r)),
        PathCmd::LineTo(pt_raw(0, r)),
        PathCmd::QuadTo(pt_raw(0, 0), pt_raw(r, 0)),
    ]
}

/// Plans one rectangle: the plain four-corner outline when no roundness is
/// declared, else the rounded outline with the policy radius of the shorter
/// side.
pub fn draw(element: &Element, config: &DrawConfig) -> (op: DrawOp)
    requires
        element.wf(),
        config.wf(),
    ensures
        op.translate_x.raw == element.x.raw + config.offset_x.raw,
        op.translate_y.raw == element.y.raw + config.offset_y.raw,
        options_match(op.options, *element, element.roundness is Some),
        match element.roundness {
            Some(roundness) => op.shape matches ShapeKind::Path { cmds } && cmds@
                == spec_rounded_rect_cmds(
                element.width.raw as int,
                element.height.raw as int,
                spec_corner_radius(
                    vstd::math::min(element.width.raw as int, element.height.raw as int),
                    roundness,
                ),
            ),
            None => op.shape == (ShapeKind::Rect {
                x: Fx { raw: 0 },
                y: Fx { raw: 0 },
                width: element.width,
                height: element.height,
            }),
        },
{
    let options = default_options_generator(element, element.roundness.is_some());
    let shape: ShapeKind = match &element.roundness {
        Some(roundness) => {
            let w: Fx = element.width;
            let h: Fx = element.height;
            let r: Fx = get_corner_radius(w.min_of(h), roundness);
            let zero: Fx = Fx::zero();
            let mut cmds: Vec<PathCmd> = Vec::new();
            cmds.push(PathCmd::MoveTo(Point::new(r, zero)));
            cmds.push(PathCmd::LineTo(Point::new(w.minus(r), zero)));
            cmds.push(PathCmd::QuadTo(Point::new(w, zero), Point::new(w, r)));
            cmds.push(PathCmd::LineTo(Point::new(w, h.minus(r))));
            cmds.push(PathCmd::QuadTo(Point::new(w, h), Point::new(w.minus(r), h)));
            cmds.push(PathCmd::LineTo(Point::new(r, h)));
            cmds.push(PathCmd::QuadTo(Point::new(zero, h), Point::new(zero, h.minus(r))));
            cmds.push(PathCmd::LineTo(Point::new(zero, r)));
            cmds.push(PathCmd::QuadTo(Point::new(zero, zero), Point::new(r, zero)));
            proof {
                assert(cmds@ =~= spec_rounded_rect_cmds(
                    element.width.raw as int,
                    element.height.raw as int,
                    r.raw as int,
                ));
            }
            ShapeKind::Path { cmds }
        },
        None => ShapeKind::Rect {
            x: Fx::zero(),
            y: Fx::zero(),
            width: element.width,
            height: element.height,
        },
    };
    DrawOp {
        translate_x: element.x.plus(config.offset_x),
        translate_y: element.y.plus(config.offset_y),
        options,
        shape,
    }
}

} // verus!
