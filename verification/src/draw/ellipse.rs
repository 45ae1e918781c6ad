//! The ellipse drawer.

use vstd::prelude::*;
use crate::draw::utils::{default_options_generator, options_core, spec_resolve_color};
use crate::draw::{DrawConfig, DrawOp, Options, ShapeKind};
use crate::element::Element;
use crate::fixed::Fx;

verus! {

/// Plans one ellipse: centered at half the element's size, with the
/// element's width and height as axes and an exact curve fitting of 1.
pub fn draw(element: &Element, config: &DrawConfig) -> (op: DrawOp)
    requires
        element.wf(),
        config.wf(),
    ensures
        op.translate_x.raw == element.x.raw + config.offset_x.raw,
        op.translate_y.raw == element.y.raw + config.offset_y.raw,
        options_core(op.options, *element, element.roundness is Some),
        op.options.fill == spec_resolve_color(element.background_color@, element.opacity),
        op.options.curve_fitting == Some(Fx { raw: 65536 }),
        op.shape matches ShapeKind::Ellipse { center_x, center_y, width, height }
            && center_x.raw == element.width.raw as int / 2
            && center_y.raw == element.height.raw as int / 2
            && width == element.width
            && height == element.height,
{
    let base: Options = default_options_generator(element, element.roundness.is_some());
    let options: Options = Options { curve_fitting: Some(Fx { raw: 65536 }), ..base };
    let shape: ShapeKind = ShapeKind::Ellipse {
        center_x: element.width.shrink(2),
        center_y: element.height.shrink(2),
        width: element.width,
        height: element.height,
    };
    DrawOp {
        translate_x: element.x.plus(config.offset_x),
        translate_y: element.y.plus(config.offset_y),
        options,
        shape,
    }
}

} // verus!
