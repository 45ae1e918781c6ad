//! Sketch-style renderer for whiteboard documents.
//!
//! A document is an ordered list of drawable elements (rectangles, diamonds,
//! ellipses, lines, arrows).  The library turns such a document into a plan of
//! abstract draw operations: resolved styling, per-kind shape geometry,
//! arrowhead geometry, and a document-level bounding box and offset.  All
//! coordinates are carried in a binary fixed-point format so every step of the
//! pipeline is exact and deterministic.

use vstd::prelude::*;

pub mod codec;
pub mod draw;
pub mod element;
pub mod fixed;
pub mod json;
pub mod point;

use crate::draw::{DrawConfig, ElementPlan};
use crate::element::Element;
use crate::fixed::Fx;

verus! {

/// An axis-aligned rectangle: position plus size.
#[derive(Clone, Copy, Debug, PartialEq, Eq, Structural)]
pub struct Rect {
    pub x: Fx,
    pub y: Fx,
    pub width: Fx,
    pub height: Fx,
}

impl Default for Rect {
    /// A zero-sized rectangle at the origin.
    fn default() -> (r: Rect)
        ensures
            r.x.raw == 0 && r.y.raw == 0 && r.width.raw == 0 && r.height.raw == 0,
    {
        Rect {
            x: Fx { raw: 0 },
            y: Fx { raw: 0 },
            width: Fx { raw: 0 },
            height: Fx { raw: 0 },
        }
    }
}

/// Application state carried alongside the elements.
#[derive(Clone, Debug, PartialEq)]
pub struct AppState {
    pub view_background_color: String,
}

/// A whiteboard document: a type tag, a format version, a source identifier,
/// the elements in paint order, and the application state.
#[derive(Clone, Debug, PartialEq)]
pub struct Excalidraw {
    pub type_field: String,
    pub version: i64,
    pub source: String,
    pub elements: Vec<Element>,
    pub app_state: AppState,
}

impl Excalidraw {
    /// Every element of the document is well formed.
    pub open spec fn wf(self) -> bool {
        forall|i: int| 0 <= i < self.elements@.len() ==> (#[trigger] self.elements@[i]).wf()
    }

    /// The minimal axis-aligned rectangle covering the `(x, y)`-`(x+w, y+h)`
    /// box of every non-deleted element; a zero-sized rectangle at the origin
    /// when no element survives.
    pub fn get_canvas_size(&self) -> (r: Rect)
        requires
            self.wf(),
        ensures
            r == spec_canvas_rect(self.elements@),
            r.x.bounded(0x1000_0000_0000),
            r.y.bounded(0x1000_0000_0000),
    {
        let mut min_x: Fx = Fx { raw: 0 };
        let mut min_y: Fx = Fx { raw: 0 };
        let mut max_x: Fx = Fx { raw: 0 };
        let mut max_y: Fx = Fx { raw: 0 };
        let mut seen: bool = false;
        let mut i: usize = 0;
        while i < self.elements.len()
            invariant
                self.wf(),
                i <= self.elements@.len(),
                seen == spec_any_live(self.elements@.take(i as int)),
                seen ==> {
                    let b = spec_bounds(self.elements@.take(i as int));
                    min_x.raw == b.0 && min_y.raw == b.1 && max_x.raw == b.2 && max_y.raw == b.3
                },
                !seen ==> min_x.raw == 0 && min_y.raw == 0 && max_x.raw == 0 && max_y.raw == 0,
                min_x.bounded(0x1000_0000_0000),
                min_y.bounded(0x1000_0000_0000),
                max_x.bounded(0x2000_0000_0000),
                max_y.bounded(0x2000_0000_0000),
            decreases self.elements@.len() - i,
        {
            let element = &self.elements[i];
            proof {
                assert(self.elements@.take(i + 1).drop_last() =~= self.elements@.take(i as int));
                assert(self.elements@.take(i + 1).last() == self.elements@[i as int]);
            }
            if !element.is_deleted {
                let right: Fx = element.x.plus(element.width);
                let bottom: Fx = element.y.plus(element.height);
                if !seen {
                    min_x = element.x;
                    min_y = element.y;
                    max_x = right;
                    max_y = bottom;
                    seen = true;
                } else {
                    min_x = min_x.min_of(element.x);
                    min_y = min_y.min_of(element.y);
                    max_x = max_x.max_of(right);
                    max_y = max_y.max_of(bottom);
                }
            }
            i = i + 1;
        }
        proof {
            assert(self.elements@.take(self.elements@.len() as int) =~= self.elements@);
        }
        if seen {
            Rect { x: min_x, y: min_y, width: max_x.minus(min_x), height: max_y.minus(min_y) }
        } else {
            Rect {
                x: Fx { raw: 0 },
                y: Fx { raw: 0 },
                width: Fx { raw: 0 },
                height: Fx { raw: 0 },
            }
        }
    }
}

/// Plans a full render of the document: the bounding box is padded and
/// mapped to the origin, and every non-deleted element is planned under
/// that offset, in paint order.
impl Excalidraw {
    pub fn draw(&self, padding: Fx) -> (r: (DrawConfig, Vec<ElementPlan>))
        requires
            self.wf(),
            padding.in_coord_range(),
        ensures
            r.0.offset_x.raw == -spec_canvas_rect(self.elements@).x.raw + padding.raw,
            r.0.offset_y.raw == -spec_canvas_rect(self.elements@).y.raw + padding.raw,
            r.0.wf(),
            r.1@.len() == self.elements@.len(),
            forall|i: int|
                0 <= i < r.1@.len() ==> if self.elements@[i].is_deleted {
                    (#[trigger] r.1@[i]) is Skip
                } else {
                    crate::draw::spec_dispatch(r.1@[i], self.elements@[i], r.0)
                },
    {
        let rect: Rect = self.get_canvas_size();
        let config = DrawConfig {
            offset_x: rect.x.neg().plus(padding),
            offset_y: rect.y.neg().plus(padding),
        };
        let plans: Vec<ElementPlan> = crate::draw::draw(&self.elements, &config);
        (config, plans)
    }
}

/// Relies on `String::from_utf8`: it accepts exactly the valid UTF-8 byte
/// sequences and keeps the bytes unchanged.
#[verifier::external_body]
pub fn string_from_utf8(v: Vec<u8>) -> (r: Option<String>)
    ensures
        r is Some <==> vstd::utf8::valid_utf8(v@),
        r matches Some(s) ==> vstd::utf8::encode_utf8(s@) == v@,
{
    match String::from_utf8(v) {
        Ok(s) => Some(s),
        Err(_) => None,
    }
}

/// True when some element of the sequence is not soft-deleted.
pub open spec fn spec_any_live(elements: Seq<Element>) -> bool {
    exists|i: int| 0 <= i < elements.len() && !(#[trigger] elements[i]).is_deleted
}

/// Raw-unit accumulators `(min_x, min_y, max_x, max_y)` over the non-deleted
/// elements of a sequence with at least one survivor.
pub open spec fn spec_bounds(elements: Seq<Element>) -> (int, int, int, int)
    recommends
        spec_any_live(elements),
    decreases elements.len(),
{
    if elements.len() == 0 {
        (0, 0, 0, 0)
    } else {
        let e = elements.last();
        let rest = elements.drop_last();
        if e.is_deleted {
            spec_bounds(rest)
        } else if !spec_any_live(rest) {
            (e.x.raw as int, e.y.raw as int, e.x.raw + e.width.raw, e.y.raw + e.height.raw)
        } else {
            let b = spec_bounds(rest);
            (
                vstd::math::min(b.0, e.x.raw as int),
                vstd::math::min(b.1, e.y.raw as int),
                vstd::math::max(b.2, e.x.raw + e.width.raw),
                vstd::math::max(b.3, e.y.raw + e.height.raw),
            )
        }
    }
}

/// The canvas rectangle of a sequence of elements.
pub open spec fn spec_canvas_rect(elements: Seq<Element>) -> Rect {
    if spec_any_live(elements) {
        let b = spec_bounds(elements);
        Rect {
            x: (Fx { raw: b.0 as i64 }),
            y: (Fx { raw: b.1 as i64 }),
            width: (Fx { raw: (b.2 - b.0) as i64 }),
            height: (Fx { raw: (b.3 - b.1) as i64 }),
        }
    } else {
        Rect {
            x: (Fx { raw: 0 }),
            y: (Fx { raw: 0 }),
            width: (Fx { raw: 0 }),
            height: (Fx { raw: 0 }),
        }
    }
}

} // verus!

