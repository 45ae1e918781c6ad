//! The line drawer.

use vstd::prelude::*;
use crate::draw::utils::{default_options_generator, options_core};
use crate::draw::{DrawConfig, DrawOp, Options, Rgba, ShapeKind};
use crate::element::Element;
use crate::point::{pt_raw, Point};

verus! {

/// The path points a line or arrow element is drawn through: its declared
/// points, or a degenerate pair of origin points when fewer than two are
/// declared.
pub open spec fn spec_path_points(e: Element) -> Seq<Point> {
    match e.points {
        Some(ps) => if ps@.len() >= 2 {
            ps@
        } else {
            seq![pt_raw(0, 0), pt_raw(0, 0)]
        },
        None => seq![pt_raw(0, 0), pt_raw(0, 0)],
    }
}

/// Plans one line: a straight polyline through the element's points when no
/// roundness is declared, else a smoothed curve through them.  A line has no
/// interior, so its fill is forced transparent.
pub fn draw(element: &Element, config: &DrawConfig) -> (op: DrawOp)
    requires
        element.wf(),
        config.wf(),
    ensures
        op.translate_x.raw == element.x.raw + config.offset_x.raw,
        op.translate_y.raw == element.y.raw + config.offset_y.raw,
        options_core(op.options, *element, element.roundness is Some),
        op.options.fill == (Rgba { red: 0, green: 0, blue: 0, alpha: 0 }),
        op.options.curve_fitting is None,
        match element.roundness {
            Some(_) => op.shape matches ShapeKind::Curve { points } && points@
                == spec_path_points(*element),
            None => op.shape matches ShapeKind::LinearPath { points, close } && points@
                == spec_path_points(*element) && close == false,
        },
{
    let base: Options = default_options_generator(element, element.roundness.is_some());
    let options: Options = Options {
        fill: Rgba { red: 0, green: 0, blue: 0, alpha: 0 },
        ..base
    };
    let points: Vec<Point> = path_points(element);
    let shape: ShapeKind = if element.roundness.is_none() {
        ShapeKind::LinearPath { points, close: false }
    } else {
        ShapeKind::Curve { points }
    };
    DrawOp {
        translate_x: element.x.plus(config.offset_x),
        translate_y: element.y.plus(config.offset_y),
        options,
        shape,
    }
}

/// The element's declared points, or the degenerate default pair.
pub fn path_points(element: &Element) -> (r: Vec<Point>)
    ensures
        r@ == spec_path_points(*element),
        r@.len() >= 2,
{
    match &element.points {
        Some(ps) => {
            if ps.len() >= 2 {
                ps.clone()
            } else {
                default_pair()
            }
        },
        None => default_pair(),
    }
}

fn default_pair() -> (r: Vec<Point>)
    ensures
        r@ == seq![pt_raw(0, 0), pt_raw(0, 0)],
{
    let mut r: Vec<Point> = Vec::new();
    r.push(Point::new(crate::fixed::Fx::zero(), crate::fixed::Fx::zero()));
    r.push(Point::new(crate::fixed::Fx::zero(), crate::fixed::Fx::zero()));
    proof {
        assert(r@ =~= seq![pt_raw(0, 0), pt_raw(0, 0)]);
    }
    r
}

} // verus!
