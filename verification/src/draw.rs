//! Document composition: per-element dispatch into abstract draw operations.
//!
//! The composer does not rasterize anything itself.  It turns each element
//! into [`DrawOp`] values: a local translation, a fully resolved style and an
//! ideal shape request.  A host feeds those operations to a sketch-path
//! generator and a raster surface; everything up to that hand-off is computed
//! here, exactly and deterministically.

use vstd::prelude::*;
use crate::element::{Element, ElementType, FillStyle, StrokeStyle};
use crate::fixed::Fx;
use crate::point::Point;

pub mod arrow;
pub mod diamond;
pub mod ellipse;
pub mod line;
pub mod rectangle;
pub mod utils;

verus! {

/// The translation applied to every element of one render.
#[derive(Clone, Copy, Debug, PartialEq, Eq, Structural)]
pub struct DrawConfig {
    pub offset_x: Fx,
    pub offset_y: Fx,
}

impl DrawConfig {
    /// Offsets derived from a document bounding box and a padding stay well
    /// inside this range.
    pub open spec fn wf(self) -> bool {
        self.offset_x.bounded(0x2000_0000_0000) && self.offset_y.bounded(0x2000_0000_0000)
    }
}

/// An RGBA color with 8-bit channels.
#[derive(Clone, Copy, Debug, PartialEq, Eq, Structural)]
pub struct Rgba {
    pub red: u8,
    pub green: u8,
    pub blue: u8,
    pub alpha: u8,
}

/// The render-ready style of one element, resolved from its declarative
/// fields.
#[derive(Clone, Debug, PartialEq)]
pub struct Options {
    pub seed: u64,
    pub fill_style: FillStyle,
    pub stroke_width: Fx,
    pub stroke_line_dash: Vec<Fx>,
    pub fill_weight: Fx,
    pub hachure_gap: Fx,
    pub disable_multi_stroke: bool,
    pub roughness: Fx,
    pub stroke: Rgba,
    pub fill: Rgba,
    pub preserve_vertices: bool,
    pub round_line_ends: bool,
    pub curve_fitting: Option<Fx>,
}

/// One command of an ideal outline path.
#[derive(Clone, Copy, Debug, PartialEq, Eq, Structural)]
pub enum PathCmd {
    MoveTo(Point),
    LineTo(Point),
    QuadTo(Point, Point),
    CurveTo(Point, Point, Point),
    Close,
}

/// An ideal shape handed to the sketch-path generator.
#[derive(Clone, Debug, PartialEq)]
pub enum ShapeKind {
    Rect { x: Fx, y: Fx, width: Fx, height: Fx },
    Polygon { points: Vec<Point> },
    Ellipse { center_x: Fx, center_y: Fx, width: Fx, height: Fx },
    LinearPath { points: Vec<Point>, close: bool },
    Curve { points: Vec<Point> },
    Circle { x: Fx, y: Fx, diameter: Fx },
    Path { cmds: Vec<PathCmd> },
}

/// One draw operation: a shape drawn under a local translation with a
/// resolved style.  The translation scope is pushed before the shape and
/// popped right after it.
#[derive(Clone, Debug, PartialEq)]
pub struct DrawOp {
    pub translate_x: Fx,
    pub translate_y: Fx,
    pub options: Options,
    pub shape: ShapeKind,
}

/// What the composer decided for one element.
#[derive(Clone, Debug, PartialEq)]
pub enum ElementPlan {
    /// Soft-deleted, text or selection: nothing is drawn.
    Skip,
    /// A single shape.
    Simple(DrawOp),
    /// The shaft of an arrow.  Arrowhead markers are derived afterwards from
    /// the generated shaft path by [`arrow::marker_ops`], and the shaft is
    /// drawn last.
    ArrowShaft(DrawOp),
}

/// The plan of a rectangle element.
pub open spec fn spec_rect_op(op: DrawOp, e: Element, cfg: DrawConfig) -> bool {
    &&& op.translate_x.raw == e.x.raw + cfg.offset_x.raw
    &&& op.translate_y.raw == e.y.raw + cfg.offset_y.raw
    &&& utils::options_match(op.options, e, e.roundness is Some)
    &&& match e.roundness {
        Some(roundness) => op.shape matches ShapeKind::Path { cmds } && cmds@
            == rectangle::spec_rounded_rect_cmds(
            e.width.raw as int,
            e.height.raw as int,
            utils::spec_corner_radius(
                vstd::math::min(e.width.raw as int, e.height.raw as int),
                roundness,
            ),
        ),
        None => op.shape == (ShapeKind::Rect {
            x: Fx { raw: 0 },
            y: Fx { raw: 0 },
            width: e.width,
            height: e.height,
        }),
    }
}

/// The plan of a diamond element.
pub open spec fn spec_diamond_op(op: DrawOp, e: Element, cfg: DrawConfig) -> bool {
    &&& op.translate_x.raw == e.x.raw + cfg.offset_x.raw
    &&& op.translate_y.raw == e.y.raw + cfg.offset_y.raw
    &&& utils::options_match(op.options, e, e.roundness is Some)
    &&& match e.roundness {
        Some(roundness) => op.shape matches ShapeKind::Path { cmds } && cmds@
            == diamond::spec_rounded_diamond_cmds(
            e.width.raw as int,
            e.height.raw as int,
            utils::spec_corner_radius(diamond::spec_top_x(e.width.raw as int), roundness),
            utils::spec_corner_radius(diamond::spec_right_y(e.height.raw as int), roundness),
        ),
        None => op.shape matches ShapeKind::Polygon { points } && points@ == seq![
            crate::point::pt_raw(diamond::spec_top_x(e.width.raw as int), 0),
            crate::point::pt_raw(
                e.width.raw as int,
                diamond::spec_right_y(e.height.raw as int),
            ),
            crate::point::pt_raw(
                diamond::spec_top_x(e.width.raw as int),
                e.height.raw as int,
            ),
            crate::point::pt_raw(0, diamond::spec_right_y(e.height.raw as int)),
        ],
    }
}

/// The plan of an ellipse element.
pub open spec fn spec_ellipse_op(op: DrawOp, e: Element, cfg: DrawConfig) -> bool {
    &&& op.translate_x.raw == e.x.raw + cfg.offset_x.raw
    &&& op.translate_y.raw == e.y.raw + cfg.offset_y.raw
    &&& utils::options_core(op.options, e, e.roundness is Some)
    &&& op.options.fill == utils::spec_resolve_color(e.background_color@, e.opacity)
    &&& op.options.curve_fitting == Some(Fx { raw: 65536 })
    &&& (op.shape matches ShapeKind::Ellipse { center_x, center_y, width, height } && center_x.raw
        == e.width.raw as int / 2 && center_y.raw == e.height.raw as int / 2 && width == e.width
        && height == e.height)
}

/// The plan of a line element, and of an arrow shaft.
pub open spec fn spec_line_op(op: DrawOp, e: Element, cfg: DrawConfig) -> bool {
    &&& op.translate_x.raw == e.x.raw + cfg.offset_x.raw
    &&& op.translate_y.raw == e.y.raw + cfg.offset_y.raw
    &&& utils::options_core(op.options, e, e.roundness is Some)
    &&& op.options.fill == (Rgba { red: 0, green: 0, blue: 0, alpha: 0 })
    &&& op.options.curve_fitting is None
    &&& match e.roundness {
        Some(_) => op.shape matches ShapeKind::Curve { points } && points@
            == line::spec_path_points(e),
        None => op.shape matches ShapeKind::LinearPath { points, close } && points@
            == line::spec_path_points(e) && close == false,
    }
}

/// What the per-kind dispatch produces for one element: each drawable kind
/// goes to its drawer, text and selection are accepted and draw nothing.
pub open spec fn spec_dispatch(plan: ElementPlan, e: Element, cfg: DrawConfig) -> bool {
    match e.element_type {
        ElementType::Rectangle => plan matches ElementPlan::Simple(op) && spec_rect_op(op, e, cfg),
        ElementType::Diamond => plan matches ElementPlan::Simple(op) && spec_diamond_op(
            op,
            e,
            cfg,
        ),
        ElementType::Ellipse => plan matches ElementPlan::Simple(op) && spec_ellipse_op(
            op,
            e,
            cfg,
        ),
        ElementType::Line => plan matches ElementPlan::Simple(op) && spec_line_op(op, e, cfg),
        ElementType::Arrow => plan matches ElementPlan::ArrowShaft(op) && spec_line_op(op, e, cfg),
        ElementType::Text => plan is Skip,
        ElementType::Selection => plan is Skip,
    }
}

impl Element {
    /// Plans this element: a pure function of its kind and fields.
    pub fn draw(&self, config: &DrawConfig) -> (plan: ElementPlan)
        requires
            self.wf(),
            config.wf(),
        ensures
            spec_dispatch(plan, *self, *config),
    {
        match self.element_type {
            ElementType::Rectangle => ElementPlan::Simple(rectangle::draw(self, config)),
            ElementType::Diamond => ElementPlan::Simple(diamond::draw(self, config)),
            ElementType::Ellipse => ElementPlan::Simple(ellipse::draw(self, config)),
            ElementType::Line => ElementPlan::Simple(line::draw(self, config)),
            ElementType::Arrow => ElementPlan::ArrowShaft(arrow::draw(self, config)),
            ElementType::Text => ElementPlan::Skip,
            ElementType::Selection => ElementPlan::Skip,
        }
    }
}

/// Plans every element of a document in paint order.  Soft-deleted elements
/// are skipped entirely and never reach a drawer.
pub fn draw(elements: &Vec<Element>, config: &DrawConfig) -> (r: Vec<ElementPlan>)
    requires
        forall|i: int| 0 <= i < elements@.len() ==> (#[trigger] elements@[i]).wf(),
        config.wf(),
    ensures
        r@.len() == elements@.len(),
        forall|i: int|
            0 <= i < r@.len() ==> if elements@[i].is_deleted {
                (#[trigger] r@[i]) is Skip
            } else {
                spec_dispatch(r@[i], elements@[i], *config)
            },
{
    let mut r: Vec<ElementPlan> = Vec::new();
    let mut i: usize = 0;
    while i < elements.len()
        invariant
            forall|k: int| 0 <= k < elements@.len() ==> (#[trigger] elements@[k]).wf(),
            config.wf(),
            i <= elements@.len(),
            r@.len() == i,
            forall|k: int|
                0 <= k < i ==> if elements@[k].is_deleted {
                    (#[trigger] r@[k]) is Skip
                } else {
                    spec_dispatch(r@[k], elements@[k], *config)
                },
        decreases elements@.len() - i,
    {
        let element = &elements[i];
        if element.is_deleted {
            r.push(ElementPlan::Skip);
        } else {
            r.push(element.draw(config));
        }
        i = i + 1;
    }
    r
}

/// Style equality up to the dash vector's contents.
pub open spec fn options_like(a: Options, b: Options) -> bool {
    &&& a.seed == b.seed
    &&& a.fill_style == b.fill_style
    &&& a.stroke_width == b.stroke_width
    &&& a.stroke_line_dash@ == b.stroke_line_dash@
    &&& a.fill_weight == b.fill_weight
    &&& a.hachure_gap == b.hachure_gap
    &&& a.disable_multi_stroke == b.disable_multi_stroke
    &&& a.roughness == b.roughness
    &&& a.stroke == b.stroke
    &&& a.fill == b.fill
    &&& a.preserve_vertices == b.preserve_vertices
    &&& a.round_line_ends == b.round_line_ends
    &&& a.curve_fitting == b.curve_fitting
}

/// Shape equality up to the point and command vectors' contents.
pub open spec fn shape_like(a: ShapeKind, b: ShapeKind) -> bool {
    match (a, b) {
        (
            ShapeKind::Rect { x: x1, y: y1, width: w1, height: h1 },
            ShapeKind::Rect { x: x2, y: y2, width: w2, height: h2 },
        ) => x1 == x2 && y1 == y2 && w1 == w2 && h1 == h2,
        (ShapeKind::Polygon { points: p1 }, ShapeKind::Polygon { points: p2 }) => p1@ == p2@,
        (
            ShapeKind::Ellipse { center_x: x1, center_y: y1, width: w1, height: h1 },
            ShapeKind::Ellipse { center_x: x2, center_y: y2, width: w2, height: h2 },
        ) => x1 == x2 && y1 == y2 && w1 == w2 && h1 == h2,
        (
            ShapeKind::LinearPath { points: p1, close: c1 },
            ShapeKind::LinearPath { points: p2, close: c2 },
        ) => p1@ == p2@ && c1 == c2,
        (ShapeKind::Curve { points: p1 }, ShapeKind::Curve { points: p2 }) => p1@ == p2@,
        (
            ShapeKind::Circle { x: x1, y: y1, diameter: d1 },
            ShapeKind::Circle { x: x2, y: y2, diameter: d2 },
        ) => x1 == x2 && y1 == y2 && d1 == d2,
        (ShapeKind::Path { cmds: c1 }, ShapeKind::Path { cmds: c2 }) => c1@ == c2@,
        _ => false,
    }
}

/// Draw-operation equality up to vector contents.
pub open spec fn op_like(a: DrawOp, b: DrawOp) -> bool {
    &&& a.translate_x == b.translate_x
    &&& a.translate_y == b.translate_y
    &&& options_like(a.options, b.options)
    &&& shape_like(a.shape, b.shape)
}

/// Plan equality up to vector contents.
pub open spec fn plan_like(a: ElementPlan, b: ElementPlan) -> bool {
    match (a, b) {
        (ElementPlan::Skip, ElementPlan::Skip) => true,
        (ElementPlan::Simple(x), ElementPlan::Simple(y)) => op_like(x, y),
        (ElementPlan::ArrowShaft(x), ElementPlan::ArrowShaft(y)) => op_like(x, y),
        _ => false,
    }
}

/// Determinism of the planner: any two plans of the same element under the
/// same offset are identical in every coordinate, every resolved style
/// field and every path command — the dispatch contract pins the whole
/// result, so repeated renders of one element are bit-stable.
pub proof fn lemma_dispatch_deterministic(
    p1: ElementPlan,
    p2: ElementPlan,
    e: Element,
    cfg: DrawConfig,
)
    requires
        spec_dispatch(p1, e, cfg),
        spec_dispatch(p2, e, cfg),
    ensures
        plan_like(p1, p2),
{
}

} // verus!
