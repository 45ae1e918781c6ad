//! The drawable element: one shape of a whiteboard document.

use vstd::prelude::*;
use crate::fixed::{Fx, FX_COORD_RAW};
use crate::point::Point;

verus! {

/// How the interior of a shape is covered.
#[derive(Clone, Copy, Debug, PartialEq, Eq, Structural)]
pub enum FillStyle {
    Solid,
    Hachure,
    ZigZag,
    CrossHatch,
    Dots,
    Dashed,
    ZigZagLine,
}

impl Default for FillStyle {
    fn default() -> (r: Self)
        ensures
            r == FillStyle::Solid,
    {
        Self::Solid
    }
}

/// The kind of an element.  `Text` and `Selection` are accepted by the schema
/// but never drawn.
#[derive(Clone, Copy, Debug, PartialEq, Eq, Structural)]
pub enum ElementType {
    Rectangle,
    Diamond,
    Ellipse,
    Arrow,
    Line,
    Text,
    Selection,
}

impl Default for ElementType {
    fn default() -> (r: Self)
        ensures
            r == ElementType::Rectangle,
    {
        Self::Rectangle
    }
}

/// How the outline stroke is dashed.
#[derive(Clone, Copy, Debug, PartialEq, Eq, Structural)]
pub enum StrokeStyle {
    Solid,
    Dashed,
    Dotted,
}

impl Default for StrokeStyle {
    fn default() -> (r: Self)
        ensures
            r == StrokeStyle::Solid,
    {
        Self::Solid
    }
}

/// The corner-radius policy of a rounded shape.  On the wire it is the small
/// integer 1, 2 or 3, not a string.
#[derive(Clone, Copy, Debug, PartialEq, Eq, Structural)]
pub enum RoundnessType {
    Legacy,
    ProportionalRadius,
    AdaptiveRadius,
}

/// A corner-radius policy plus the optional fixed radius used by
/// `AdaptiveRadius`.
#[derive(Clone, Copy, Debug, PartialEq, Eq, Structural)]
pub struct Roundness {
    pub type_field: RoundnessType,
    pub value: Option<Fx>,
}

/// A marker drawn at one end of a line or arrow.
#[derive(Clone, Copy, Debug, PartialEq, Eq, Structural)]
pub enum Arrowhead {
    Arrow,
    Bar,
    Dot,
    Triangle,
}

/// One drawable shape of a document.
#[derive(Clone, Debug, PartialEq)]
pub struct Element {
    pub id: String,
    pub element_type: ElementType,
    pub x: Fx,
    pub y: Fx,
    pub width: Fx,
    pub height: Fx,
    pub angle: i64,
    pub stroke_color: String,
    pub background_color: String,
    pub fill_style: FillStyle,
    pub stroke_width: Fx,
    pub stroke_style: StrokeStyle,
    pub roughness: Fx,
    pub opacity: u8,
    pub seed: u64,
    pub version: i64,
    pub version_nonce: i64,
    pub is_deleted: bool,
    pub updated: i64,
    pub locked: bool,
    pub roundness: Option<Roundness>,
    pub points: Option<Vec<Point>>,
    pub start_arrowhead: Option<Arrowhead>,
    pub end_arrowhead: Option<Arrowhead>,
}

impl Element {
    /// Well-formed elements: geometry inside the coordinate range, sizes
    /// nonnegative, opacity a percentage.  Documents are only built through
    /// the decoder, which checks all of this.
    pub open spec fn wf(self) -> bool {
        &&& self.x.in_coord_range()
        &&& self.y.in_coord_range()
        &&& self.width.in_coord_range()
        &&& self.height.in_coord_range()
        &&& self.width.raw >= 0
        &&& self.height.raw >= 0
        &&& self.stroke_width.in_coord_range()
        &&& self.roughness.in_coord_range()
        &&& self.opacity <= 100
        &&& (self.roundness matches Some(r) ==> (r.value matches Some(v) ==>
            v.bounded(FX_COORD_RAW as int)))
        &&& (self.points matches Some(ps) ==> ps@.len() <= 0x10000
            && (forall|i: int| 0 <= i < ps@.len() ==> (#[trigger] ps@[i]).in_coord_range()))
    }

    pub fn get_size(&self) -> (r: (Fx, Fx))
        ensures
            r.0 == self.width,
            r.1 == self.height,
    {
        (self.width, self.height)
    }
}

} // verus!
