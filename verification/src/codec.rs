//! The document schema: decoding a document from a JSON tree and encoding
//! it back.
//!
//! Field names are lower-camel-case; a point is a two-element array, not an
//! object; a roundness policy travels as the small integer 1, 2 or 3; a
//! missing or null optional field is absent.  The decoder also enforces the
//! document invariants: coordinates inside the representable range, sizes
//! nonnegative, opacity a percentage, and at most 65536 path points per
//! element.

use vstd::prelude::*;
use crate::element::{
    Arrowhead, Element, ElementType, FillStyle, Roundness, RoundnessType, StrokeStyle,
};
use crate::fixed::{Fx, FX_COORD_RAW};
use crate::json::{Json, JsonV};
use crate::point::Point;
use crate::{AppState, Excalidraw};

verus! {

/// Why a document could not be read.
#[derive(Clone, Copy, Debug, PartialEq, Eq, Structural)]
pub enum ParseError {
    /// The text is not well-formed JSON of the interchange subset.
    Syntax,
    /// The JSON is well formed but does not fit the document schema.
    Schema,
}

fn str_eq(a: &String, b: &str) -> (r: bool)
    ensures
        r == (a@ == b@),
{
    let other: String = String::from_str(b);
    a.eq(&other)
}

/// The wire number of an unsigned value.
pub open spec fn spec_u64_wire(m: u64) -> JsonV {
    JsonV::Int { neg: false, mag: m }
}

/// The wire form of a fixed-point value.
pub open spec fn spec_fx_wire(f: Fx) -> JsonV {
    JsonV::Fixed(f.raw as int)
}

/// The integer wire form of a whole number of units, as a plain `[x, y]`
/// array carries it when the coordinates are whole.
pub open spec fn spec_int_point_wire(vx: i64, vy: i64) -> JsonV {
    JsonV::Arr(seq![spec_int_json(vx as int), spec_int_json(vy as int)])
}

/// Decodes a number into a fixed-point value inside the coordinate range.
fn decode_fx(j: &Json) -> (r: Result<Fx, ParseError>)
    ensures
        r matches Ok(f) ==> f.in_coord_range(),
        r matches Ok(f) ==> match j@ {
            JsonV::Int { neg, mag } => f.raw == if neg {
                -(mag * 65536)
            } else {
                mag * 65536
            },
            JsonV::Fixed(raw) => f.raw == raw,
            _ => false,
        },
        !(j@ is Int || j@ is Fixed) ==> r is Err,
        forall|f: Fx|
            (j@ == #[trigger] spec_fx_wire(f) && f.in_coord_range()) ==> r == Ok::<
                Fx,
                ParseError,
            >(f),
        forall|v: i64|
            (j@ == #[trigger] spec_int_json(v as int) && -0x10000000 <= v <= 0x10000000) ==> r
                == Ok::<Fx, ParseError>(Fx { raw: (v * 65536) as i64 }),
{
    proof {
        crate::json::lemma_json_view_variant(*j);
    }
    match j {
        Json::Int { neg, mag } => {
            if *mag > 0x10000000 {
                Err(ParseError::Schema)
            } else {
                let raw: i64 = (*mag as i64) * 65536;
                if *neg {
                    Ok(Fx { raw: -raw })
                } else {
                    Ok(Fx { raw })
                }
            }
        },
        Json::Fixed(f) => {
            if f.raw > FX_COORD_RAW || f.raw < -FX_COORD_RAW {
                Err(ParseError::Schema)
            } else {
                Ok(*f)
            }
        },
        _ => Err(ParseError::Schema),
    }
}

/// Decodes a number into a signed 64-bit integer.
fn decode_i64(j: &Json) -> (r: Result<i64, ParseError>)
    ensures
        r matches Ok(v) ==> match j@ {
            JsonV::Int { neg, mag } => v == if neg {
                -(mag as int)
            } else {
                mag as int
            },
            _ => false,
        },
        !(j@ is Int) ==> r is Err,
{
    match j {
        Json::Int { neg, mag } => {
            if *neg {
                if *mag > 0x8000_0000_0000_0000 {
                    Err(ParseError::Schema)
                } else if *mag == 0x8000_0000_0000_0000 {
                    Ok(i64::MIN)
                } else {
                    Ok(-(*mag as i64))
                }
            } else {
                if *mag > 0x7FFF_FFFF_FFFF_FFFF {
                    Err(ParseError::Schema)
                } else {
                    Ok(*mag as i64)
                }
            }
        },
        _ => Err(ParseError::Schema),
    }
}

/// Decodes a number into an unsigned 64-bit integer.
fn decode_u64(j: &Json) -> (r: Result<u64, ParseError>)
    ensures
        r matches Ok(v) ==> (j@ matches JsonV::Int { neg, mag } && v == mag && (neg ==> mag
            == 0)),
        !(j@ is Int) ==> r is Err,
        forall|m: u64| j@ == #[trigger] spec_u64_wire(m) ==> r == Ok::<u64, ParseError>(m),
{
    match j {
        Json::Int { neg, mag } => {
            if *neg && *mag != 0 {
                Err(ParseError::Schema)
            } else {
                Ok(*mag)
            }
        },
        _ => Err(ParseError::Schema),
    }
}

/// Decodes a roundness tag: 1 is the legacy policy, 2 the proportional
/// radius, 3 the adaptive radius, and every other number fails.
pub fn roundness_type_from_tag(tag: u64) -> (r: Result<RoundnessType, ParseError>)
    ensures
        tag == 1 ==> r == Ok::<RoundnessType, ParseError>(RoundnessType::Legacy),
        tag == 2 ==> r == Ok::<RoundnessType, ParseError>(RoundnessType::ProportionalRadius),
        tag == 3 ==> r == Ok::<RoundnessType, ParseError>(RoundnessType::AdaptiveRadius),
        !(1 <= tag <= 3) ==> r == Err::<RoundnessType, ParseError>(ParseError::Schema),
{
    if tag == 1 {
        Ok(RoundnessType::Legacy)
    } else if tag == 2 {
        Ok(RoundnessType::ProportionalRadius)
    } else if tag == 3 {
        Ok(RoundnessType::AdaptiveRadius)
    } else {
        Err(ParseError::Schema)
    }
}

/// The roundness type a wire number denotes: the tags 1, 2 and 3.
pub open spec fn spec_decode_roundness_tag(v: JsonV) -> Option<RoundnessType> {
    match v {
        JsonV::Int { neg, mag } => if !neg && mag == 1 {
            Some(RoundnessType::Legacy)
        } else if !neg && mag == 2 {
            Some(RoundnessType::ProportionalRadius)
        } else if !neg && mag == 3 {
            Some(RoundnessType::AdaptiveRadius)
        } else {
            None
        },
        _ => None,
    }
}

/// The optional fixed radius a wire value denotes: null for none, an
/// in-range fixed-point number otherwise.
pub open spec fn spec_decode_roundness_value(v: JsonV) -> Option<Option<Fx>> {
    match v {
        JsonV::Null => Some(None),
        JsonV::Fixed(raw) => if -FX_COORD_RAW <= raw <= FX_COORD_RAW {
            Some(Some(Fx { raw: raw as i64 }))
        } else {
            None
        },
        _ => None,
    }
}

/// The roundness descriptor a canonical wire object denotes: the shape the
/// encoder writes — the tag entry and the value entry — or the tag entry
/// alone, in which case the value is absent.
pub open spec fn spec_decode_roundness(v: JsonV) -> Option<Roundness> {
    match v {
        JsonV::Obj(es) => if es.len() == 2 && es[0].0 == "type"@ && es[1].0 == "value"@
            && spec_decode_roundness_tag(es[0].1) is Some && spec_decode_roundness_value(
            es[1].1,
        ) is Some {
            Some(
                Roundness {
                    type_field: spec_decode_roundness_tag(es[0].1)->0,
                    value: spec_decode_roundness_value(es[1].1)->0,
                },
            )
        } else if es.len() == 1 && es[0].0 == "type"@ && spec_decode_roundness_tag(
            es[0].1,
        ) is Some {
            Some(Roundness { type_field: spec_decode_roundness_tag(es[0].1)->0, value: None })
        } else {
            None
        },
        _ => None,
    }
}

/// A roundness descriptor a document may carry.
pub open spec fn spec_roundness_in_range(r: Roundness) -> bool {
    r.value matches Some(f) ==> f.bounded(FX_COORD_RAW as int)
}

/// The wire form of a roundness descriptor decodes back to the descriptor
/// itself.
pub proof fn lemma_roundness_wire_round_trip(r0: Roundness)
    requires
        spec_roundness_in_range(r0),
    ensures
        spec_decode_roundness(spec_encode_roundness(r0)) == Some(r0),
{
}

/// Decodes the tag entry of a roundness object.
fn decode_roundness_tag(val: &Json) -> (r: Result<RoundnessType, ParseError>)
    ensures
        spec_decode_roundness_tag(val@) matches Some(t) ==> r == Ok::<
            RoundnessType,
            ParseError,
        >(t),
        spec_decode_roundness_tag(val@) is None ==> r is Err,
{
    proof {
        crate::json::lemma_json_view_variant(*val);
        match spec_decode_roundness_tag(val@) {
            Some(t) => {
                assert(val@ == spec_u64_wire(spec_roundness_tag(t)));
            },
            None => {},
        }
    }
    let tag: u64 = match decode_u64(val) {
        Ok(v) => v,
        Err(e) => {
            return Err(e);
        },
    };
    roundness_type_from_tag(tag)
}

/// Decodes the value entry of a roundness object.
fn decode_roundness_value(val: &Json) -> (r: Result<Option<Fx>, ParseError>)
    ensures
        r matches Ok(v) ==> (v matches Some(f) ==> f.bounded(FX_COORD_RAW as int)),
        spec_decode_roundness_value(val@) matches Some(v) ==> r == Ok::<
            Option<Fx>,
            ParseError,
        >(v),
{
    proof {
        crate::json::lemma_json_view_variant(*val);
        match spec_decode_roundness_value(val@) {
            Some(v) => {
                match v {
                    Some(f) => {
                        assert(val@ == spec_fx_wire(f));
                    },
                    None => {},
                }
            },
            None => {},
        }
    }
    match val {
        Json::Null => Ok(None),
        other => {
            match decode_fx(other) {
                Ok(f) => Ok(Some(f)),
                Err(e) => Err(e),
            }
        },
    }
}

/// Decodes a roundness descriptor: an object whose `type` field holds the
/// tag and whose optional `value` field holds the fixed radius.  A canonical
/// wire descriptor — the exact shape the encoder writes — decodes to the
/// descriptor it denotes; any other field order is still accepted.
pub fn decode_roundness(j: &Json) -> (r: Result<Roundness, ParseError>)
    ensures
        r matches Ok(v) ==> (v.value matches Some(f) ==> f.bounded(FX_COORD_RAW as int)),
        spec_decode_roundness(j@) matches Some(r0) ==> r == Ok::<Roundness, ParseError>(r0),
{
    proof {
        crate::json::lemma_json_view_variant(*j);
    }
    let entries: &Vec<(String, Json)> = match j {
        Json::Obj(entries) => entries,
        _ => {
            return Err(ParseError::Schema);
        },
    };
    proof {
        crate::json::lemma_view_entries(entries@);
    }
    if entries.len() == 2 && str_eq(&entries[0].0, "type") && str_eq(&entries[1].0, "value") {
        // The writer's own field order: read both entries directly.
        let type_field: RoundnessType = match decode_roundness_tag(&entries[0].1) {
            Ok(t) => t,
            Err(e) => {
                return Err(e);
            },
        };
        let value: Option<Fx> = match decode_roundness_value(&entries[1].1) {
            Ok(v) => v,
            Err(e) => {
                return Err(e);
            },
        };
        return Ok(Roundness { type_field, value });
    }
    if entries.len() == 1 && str_eq(&entries[0].0, "type") {
        // The tag alone: the value is absent.
        let type_field: RoundnessType = match decode_roundness_tag(&entries[0].1) {
            Ok(t) => t,
            Err(e) => {
                return Err(e);
            },
        };
        return Ok(Roundness { type_field, value: None });
    }
    proof {
        assert(spec_decode_roundness(j@) is None);
    }
    let mut type_field: Option<RoundnessType> = None;
    let mut value: Option<Fx> = None;
    let mut i: usize = 0;
    while i < entries.len()
        invariant
            value matches Some(f) ==> f.bounded(FX_COORD_RAW as int),
            spec_decode_roundness(j@) is None,
        decreases entries@.len() - i,
    {
        let key: &String = &entries[i].0;
        if str_eq(key, "type") {
            if type_field.is_some() {
                return Err(ParseError::Schema);
            }
            let tag: u64 = match decode_u64(&entries[i].1) {
                Ok(v) => v,
                Err(e) => {
                    return Err(e);
                },
            };
            type_field = match roundness_type_from_tag(tag) {
                Ok(t) => Some(t),
                Err(e) => {
                    return Err(e);
                },
            };
        } else if str_eq(key, "value") {
            if value.is_some() {
                return Err(ParseError::Schema);
            }
            match &entries[i].1 {
                Json::Null => {},
                other => {
                    value = match decode_fx(other) {
                        Ok(f) => Some(f),
                        Err(e) => {
                            return Err(e);
                        },
                    };
                },
            }
        }
        i = i + 1;
    }
    match type_field {
        Some(t) => Ok(Roundness { type_field: t, value }),
        None => Err(ParseError::Schema),
    }
}

/// Decodes one wire point: a two-element `[x, y]` array.  A point's wire
/// form decodes back to the point itself.
pub fn decode_point(j: &Json) -> (r: Result<Point, ParseError>)
    ensures
        r matches Ok(p) ==> p.in_coord_range(),
        forall|p0: Point|
            (#[trigger] spec_encode_point(p0) == j@ && p0.in_coord_range()) ==> r == Ok::<
                Point,
                ParseError,
            >(p0),
        forall|vx: i64, vy: i64|
            (j@ == #[trigger] spec_int_point_wire(vx, vy) && -0x10000000 <= vx <= 0x10000000
                && -0x10000000 <= vy <= 0x10000000) ==> r == Ok::<Point, ParseError>(
                Point { x: Fx { raw: (vx * 65536) as i64 }, y: Fx { raw: (vy * 65536) as i64 } },
            ),
{
    proof {
        crate::json::lemma_json_view_variant(*j);
    }
    let items: &Vec<Json> = match j {
        Json::Arr(items) => items,
        _ => {
            return Err(ParseError::Schema);
        },
    };
    proof {
        crate::json::lemma_view_seq(items@);
    }
    if items.len() != 2 {
        return Err(ParseError::Schema);
    }
    let x: Fx = match decode_fx(&items[0]) {
        Ok(f) => f,
        Err(e) => {
            return Err(e);
        },
    };
    let y: Fx = match decode_fx(&items[1]) {
        Ok(f) => f,
        Err(e) => {
            return Err(e);
        },
    };
    Ok(Point { x, y })
}

/// A point sequence a document may carry.
pub open spec fn spec_points_in_range(ps: Seq<Point>) -> bool {
    ps.len() <= 0x10000 && (forall|i: int|
        0 <= i < ps.len() ==> (#[trigger] ps[i]).in_coord_range())
}

/// The wire form of a point sequence.
pub open spec fn spec_encode_points(ps: Seq<Point>) -> JsonV {
    JsonV::Arr(Seq::new(ps.len(), |i: int| spec_encode_point(ps[i])))
}

/// Decodes an array of wire points.  An encoded point sequence decodes back
/// to the same sequence.
pub fn decode_points(j: &Json) -> (r: Result<Vec<Point>, ParseError>)
    ensures
        r matches Ok(ps) ==> spec_points_in_range(ps@),
        forall|ps0: Seq<Point>|
            (j@ == #[trigger] spec_encode_points(ps0) && spec_points_in_range(ps0)) ==> (
            r matches Ok(ps) && ps@ == ps0),
{
    proof {
        crate::json::lemma_json_view_variant(*j);
    }
    let items: &Vec<Json> = match j {
        Json::Arr(items) => items,
        _ => {
            return Err(ParseError::Schema);
        },
    };
    proof {
        crate::json::lemma_view_seq(items@);
    }
    if items.len() > 0x10000 {
        return Err(ParseError::Schema);
    }
    let mut ps: Vec<Point> = Vec::new();
    let mut i: usize = 0;
    while i < items.len()
        invariant
            ps@.len() == i <= items@.len() <= 0x10000,
            forall|k: int| 0 <= k < ps@.len() ==> (#[trigger] ps@[k]).in_coord_range(),
            j@ == JsonV::Arr(crate::json::spec_view_seq(items@)),
            crate::json::spec_view_seq(items@).len() == items@.len(),
            forall|k: int|
                0 <= k < items@.len() ==> #[trigger] crate::json::spec_view_seq(items@)[k]
                    == items@[k]@,
            forall|ps0: Seq<Point>|
                (j@ == #[trigger] spec_encode_points(ps0) && spec_points_in_range(ps0)) ==> (
                i <= ps0.len() && ps@ == ps0.take(i as int)),
        decreases items@.len() - i,
    {
        match decode_point(&items[i]) {
            Ok(p) => {
                ps.push(p);
                proof {
                    assert forall|ps0: Seq<Point>|
                        j@ == #[trigger] spec_encode_points(ps0) && spec_points_in_range(
                            ps0,
                        ) implies i + 1 <= ps0.len() && ps@ == ps0.take(i + 1) by {
                        assert(crate::json::spec_view_seq(items@) == spec_encode_points(
                            ps0,
                        )->Arr_0);
                        assert(spec_encode_points(ps0)->Arr_0[i as int] == spec_encode_point(
                            ps0[i as int],
                        ));
                        assert(items@[i as int]@ == spec_encode_point(ps0[i as int]));
                        assert(ps@ =~= ps0.take(i + 1));
                    }
                }
            },
            Err(e) => {
                proof {
                    assert forall|ps0: Seq<Point>|
                        !(j@ == #[trigger] spec_encode_points(ps0) && spec_points_in_range(
                            ps0,
                        )) by {
                        if j@ == spec_encode_points(ps0) && spec_points_in_range(ps0) {
                            assert(crate::json::spec_view_seq(items@) == spec_encode_points(
                                ps0,
                            )->Arr_0);
                            assert(spec_encode_points(ps0)->Arr_0[i as int]
                                == spec_encode_point(ps0[i as int]));
                            assert(items@[i as int]@ == spec_encode_point(ps0[i as int]));
                        }
                    }
                }
                return Err(e);
            },
        }
        i = i + 1;
    }
    proof {
        assert forall|ps0: Seq<Point>|
            (j@ == #[trigger] spec_encode_points(ps0) && spec_points_in_range(ps0)) implies ps@
            == ps0 by {
            assert(ps@ =~= ps0.take(ps0.len() as int));
            assert(ps0.take(ps0.len() as int) =~= ps0);
        }
    }
    Ok(ps)
}

fn decode_element_type(j: &Json) -> (r: Result<ElementType, ParseError>)
{
    let s: &String = match j {
        Json::Text(s) => s,
        _ => {
            return Err(ParseError::Schema);
        },
    };
    if str_eq(s, "rectangle") {
        Ok(ElementType::Rectangle)
    } else if str_eq(s, "diamond") {
        Ok(ElementType::Diamond)
    } else if str_eq(s, "ellipse") {
        Ok(ElementType::Ellipse)
    } else if str_eq(s, "arrow") {
        Ok(ElementType::Arrow)
    } else if str_eq(s, "line") {
        Ok(ElementType::Line)
    } else if str_eq(s, "text") {
        Ok(ElementType::Text)
    } else if str_eq(s, "selection") {
        Ok(ElementType::Selection)
    } else {
        Err(ParseError::Schema)
    }
}

fn decode_fill_style(j: &Json) -> (r: Result<FillStyle, ParseError>)
{
    let s: &String = match j {
        Json::Text(s) => s,
        _ => {
            return Err(ParseError::Schema);
        },
    };
    if str_eq(s, "solid") {
        Ok(FillStyle::Solid)
    } else if str_eq(s, "hachure") {
        Ok(FillStyle::Hachure)
    } else if str_eq(s, "zig-zag") {
        Ok(FillStyle::ZigZag)
    } else if str_eq(s, "cross-hatch") {
        Ok(FillStyle::CrossHatch)
    } else if str_eq(s, "dots") {
        Ok(FillStyle::Dots)
    } else if str_eq(s, "dashed") {
        Ok(FillStyle::Dashed)
    } else if str_eq(s, "zig-zag-line") {
        Ok(FillStyle::ZigZagLine)
    } else {
        Err(ParseError::Schema)
    }
}

fn decode_stroke_style(j: &Json) -> (r: Result<StrokeStyle, ParseError>)
{
    let s: &String = match j {
        Json::Text(s) => s,
        _ => {
            return Err(ParseError::Schema);
        },
    };
    if str_eq(s, "solid") {
        Ok(StrokeStyle::Solid)
    } else if str_eq(s, "dashed") {
        Ok(StrokeStyle::Dashed)
    } else if str_eq(s, "dotted") {
        Ok(StrokeStyle::Dotted)
    } else {
        Err(ParseError::Schema)
    }
}

fn decode_arrowhead(j: &Json) -> (r: Result<Arrowhead, ParseError>)
{
    let s: &String = match j {
        Json::Text(s) => s,
        _ => {
            return Err(ParseError::Schema);
        },
    };
    if str_eq(s, "arrow") {
        Ok(Arrowhead::Arrow)
    } else if str_eq(s, "bar") {
        Ok(Arrowhead::Bar)
    } else if str_eq(s, "dot") {
        Ok(Arrowhead::Dot)
    } else if str_eq(s, "triangle") {
        Ok(Arrowhead::Triangle)
    } else {
        Err(ParseError::Schema)
    }
}

/// Decodes one element object.  Unknown fields are ignored, a duplicate or
/// ill-typed field fails, a missing optional field is absent, and the
/// decoded element satisfies every document invariant.
#[verifier::rlimit(100)]
pub fn decode_element(j: &Json) -> (r: Result<Element, ParseError>)
    ensures
        r matches Ok(e) ==> e.wf(),
{
    let entries: &Vec<(String, Json)> = match j {
        Json::Obj(entries) => entries,
        _ => {
            return Err(ParseError::Schema);
        },
    };
    let mut id: Option<String> = None;
    let mut element_type: Option<ElementType> = None;
    let mut x: Option<Fx> = None;
    let mut y: Option<Fx> = None;
    let mut width: Option<Fx> = None;
    let mut height: Option<Fx> = None;
    let mut angle: Option<i64> = None;
    let mut stroke_color: Option<String> = None;
    let mut background_color: Option<String> = None;
    let mut fill_style: Option<FillStyle> = None;
    let mut stroke_width: Option<Fx> = None;
    let mut stroke_style: Option<StrokeStyle> = None;
    let mut roughness: Option<Fx> = None;
    let mut opacity: Option<u8> = None;
    let mut seed: Option<u64> = None;
    let mut version: Option<i64> = None;
    let mut version_nonce: Option<i64> = None;
    let mut is_deleted: Option<bool> = None;
    let mut updated: Option<i64> = None;
    let mut locked: Option<bool> = None;
    let mut roundness: Option<Roundness> = None;
    let mut points: Option<Vec<Point>> = None;
    let mut start_arrowhead: Option<Arrowhead> = None;
    let mut end_arrowhead: Option<Arrowhead> = None;
    let mut i: usize = 0;
    while i < entries.len()
        invariant
            x matches Some(f) ==> f.in_coord_range(),
            y matches Some(f) ==> f.in_coord_range(),
            width matches Some(f) ==> f.in_coord_range() && f.raw >= 0,
            height matches Some(f) ==> f.in_coord_range() && f.raw >= 0,
            stroke_width matches Some(f) ==> f.in_coord_range(),
            roughness matches Some(f) ==> f.in_coord_range(),
            opacity matches Some(o) ==> o <= 100,
            roundness matches Some(rd) ==> (rd.value matches Some(f) ==> f.bounded(
                FX_COORD_RAW as int,
            )),
            points matches Some(ps) ==> ps@.len() <= 0x10000 && (forall|k: int|
                0 <= k < ps@.len() ==> (#[trigger] ps@[k]).in_coord_range()),
        decreases entries@.len() - i,
    {
        let key: &String = &entries[i].0;
        let val: &Json = &entries[i].1;
        if str_eq(key, "id") {
            if id.is_some() {
                return Err(ParseError::Schema);
            }
            match val {
                Json::Text(s) => {
                    id = Some(s.clone());
                },
                _ => {
                    return Err(ParseError::Schema);
                },
            }
        } else if str_eq(key, "type") {
            if element_type.is_some() {
                return Err(ParseError::Schema);
            }
            element_type = match decode_element_type(val) {
                Ok(v) => Some(v),
                Err(e) => {
                    return Err(e);
                },
            };
        } else if str_eq(key, "x") {
            if x.is_some() {
                return Err(ParseError::Schema);
            }
            x = match decode_fx(val) {
                Ok(v) => Some(v),
                Err(e) => {
                    return Err(e);
                },
            };
        } else if str_eq(key, "y") {
            if y.is_some() {
                return Err(ParseError::Schema);
            }
            y = match decode_fx(val) {
                Ok(v) => Some(v),
                Err(e) => {
                    return Err(e);
                },
            };
        } else if str_eq(key, "width") {
            if width.is_some() {
                return Err(ParseError::Schema);
            }
            let v: Fx = match decode_fx(val) {
                Ok(v) => v,
                Err(e) => {
                    return Err(e);
                },
            };
            if v.raw < 0 {
                return Err(ParseError::Schema);
            }
            width = Some(v);
        } else if str_eq(key, "height") {
            if height.is_some() {
                return Err(ParseError::Schema);
            }
            let v: Fx = match decode_fx(val) {
                Ok(v) => v,
                Err(e) => {
                    return Err(e);
                },
            };
            if v.raw < 0 {
                return Err(ParseError::Schema);
            }
            height = Some(v);
        } else if str_eq(key, "angle") {
            if angle.is_some() {
                return Err(ParseError::Schema);
            }
            angle = match decode_i64(val) {
                Ok(v) => Some(v),
                Err(e) => {
                    return Err(e);
                },
            };
        } else if str_eq(key, "strokeColor") {
            if stroke_color.is_some() {
                return Err(ParseError::Schema);
            }
            match val {
                Json::Text(s) => {
                    stroke_color = Some(s.clone());
                },
                _ => {
                    return Err(ParseError::Schema);
                },
            }
        } else if str_eq(key, "backgroundColor") {
            if background_color.is_some() {
                return Err(ParseError::Schema);
            }
            match val {
                Json::Text(s) => {
                    background_color = Some(s.clone());
                },
                _ => {
                    return Err(ParseError::Schema);
                },
            }
        } else if str_eq(key, "fillStyle") {
            if fill_style.is_some() {
                return Err(ParseError::Schema);
            }
            fill_style = match decode_fill_style(val) {
                Ok(v) => Some(v),
                Err(e) => {
                    return Err(e);
                },
            };
        } else if str_eq(key, "strokeWidth") {
            if stroke_width.is_some() {
                return Err(ParseError::Schema);
            }
            stroke_width = match decode_fx(val) {
                Ok(v) => Some(v),
                Err(e) => {
                    return Err(e);
                },
            };
        } else if str_eq(key, "strokeStyle") {
            if stroke_style.is_some() {
                return Err(ParseError::Schema);
            }
            stroke_style = match decode_stroke_style(val) {
                Ok(v) => Some(v),
                Err(e) => {
                    return Err(e);
                },
            };
        } else if str_eq(key, "roughness") {
            if roughness.is_some() {
                return Err(ParseError::Schema);
            }
            roughness = match decode_fx(val) {
                Ok(v) => Some(v),
                Err(e) => {
                    return Err(e);
                },
            };
        } else if str_eq(key, "opacity") {
            if opacity.is_some() {
                return Err(ParseError::Schema);
            }
            let v: u64 = match decode_u64(val) {
                Ok(v) => v,
                Err(e) => {
                    return Err(e);
                },
            };
            if v > 100 {
                return Err(ParseError::Schema);
            }
            opacity = Some(v as u8);
        } else if str_eq(key, "seed") {
            if seed.is_some() {
                return Err(ParseError::Schema);
            }
            seed = match decode_u64(val) {
                Ok(v) => Some(v),
                Err(e) => {
                    return Err(e);
                },
            };
        } else if str_eq(key, "version") {
            if version.is_some() {
                return Err(ParseError::Schema);
            }
            version = match decode_i64(val) {
                Ok(v) => Some(v),
                Err(e) => {
                    return Err(e);
                },
            };
        } else if str_eq(key, "versionNonce") {
            if version_nonce.is_some() {
                return Err(ParseError::Schema);
            }
            version_nonce = match decode_i64(val) {
                Ok(v) => Some(v),
                Err(e) => {
                    return Err(e);
                },
            };
        } else if str_eq(key, "isDeleted") {
            if is_deleted.is_some() {
                return Err(ParseError::Schema);
            }
            match val {
                Json::Bool(b) => {
                    is_deleted = Some(*b);
                },
                _ => {
                    return Err(ParseError::Schema);
                },
            }
        } else if str_eq(key, "updated") {
            if updated.is_some() {
                return Err(ParseError::Schema);
            }
            updated = match decode_i64(val) {
                Ok(v) => Some(v),
                Err(e) => {
                    return Err(e);
                },
            };
        } else if str_eq(key, "locked") {
            if locked.is_some() {
                return Err(ParseError::Schema);
            }
            match val {
                Json::Bool(b) => {
                    locked = Some(*b);
                },
                _ => {
                    return Err(ParseError::Schema);
                },
            }
        } else if str_eq(key, "roundness") {
            if roundness.is_some() {
                return Err(ParseError::Schema);
            }
            match val {
                Json::Null => {},
                other => {
                    roundness = match decode_roundness(other) {
                        Ok(v) => Some(v),
                        Err(e) => {
                            return Err(e);
                        },
                    };
                },
            }
        } else if str_eq(key, "points") {
            if points.is_some() {
                return Err(ParseError::Schema);
            }
            match val {
                Json::Null => {},
                other => {
                    points = match decode_points(other) {
                        Ok(v) => Some(v),
                        Err(e) => {
                            return Err(e);
                        },
                    };
                },
            }
        } else if str_eq(key, "startArrowhead") {
            if start_arrowhead.is_some() {
                return Err(ParseError::Schema);
            }
            match val {
                Json::Null => {},
                other => {
                    start_arrowhead = match decode_arrowhead(other) {
                        Ok(v) => Some(v),
                        Err(e) => {
                            return Err(e);
                        },
                    };
                },
            }
        } else if str_eq(key, "endArrowhead") {
            if end_arrowhead.is_some() {
                return Err(ParseError::Schema);
            }
            match val {
                Json::Null => {},
                other => {
                    end_arrowhead = match decode_arrowhead(other) {
                        Ok(v) => Some(v),
                        Err(e) => {
                            return Err(e);
                        },
                    };
                },
            }
        }
        i = i + 1;
    }
    let element = Element {
        id: match id {
            Some(v) => v,
            None => {
                return Err(ParseError::Schema);
            },
        },
        element_type: match element_type {
            Some(v) => v,
            None => {
                return Err(ParseError::Schema);
            },
        },
        x: match x {
            Some(v) => v,
            None => {
                return Err(ParseError::Schema);
            },
        },
        y: match y {
            Some(v) => v,
            None => {
                return Err(ParseError::Schema);
            },
        },
        width: match width {
            Some(v) => v,
            None => {
                return Err(ParseError::Schema);
            },
        },
        height: match height {
            Some(v) => v,
            None => {
                return Err(ParseError::Schema);
            },
        },
        angle: match angle {
            Some(v) => v,
            None => {
                return Err(ParseError::Schema);
            },
        },
        stroke_color: match stroke_color {
            Some(v) => v,
            None => {
                return Err(ParseError::Schema);
            },
        },
        background_color: match background_color {
            Some(v) => v,
            None => {
                return Err(ParseError::Schema);
            },
        },
        fill_style: match fill_style {
            Some(v) => v,
            None => {
                return Err(ParseError::Schema);
            },
        },
        stroke_width: match stroke_width {
            Some(v) => v,
            None => {
                return Err(ParseError::Schema);
            },
        },
        stroke_style: match stroke_style {
            Some(v) => v,
            None => {
                return Err(ParseError::Schema);
            },
        },
        roughness: match roughness {
            Some(v) => v,
            None => {
                return Err(ParseError::Schema);
            },
        },
        opacity: match opacity {
            Some(v) => v,
            None => {
                return Err(ParseError::Schema);
            },
        },
        seed: match seed {
            Some(v) => v,
            None => {
                return Err(ParseError::Schema);
            },
        },
        version: match version {
            Some(v) => v,
            None => {
                return Err(ParseError::Schema);
            },
        },
        version_nonce: match version_nonce {
            Some(v) => v,
            None => {
                return Err(ParseError::Schema);
            },
        },
        is_deleted: match is_deleted {
            Some(v) => v,
            None => {
                return Err(ParseError::Schema);
            },
        },
        updated: match updated {
            Some(v) => v,
            None => {
                return Err(ParseError::Schema);
            },
        },
        locked: match locked {
            Some(v) => v,
            None => {
                return Err(ParseError::Schema);
            },
        },
        roundness,
        points,
        start_arrowhead,
        end_arrowhead,
    };
    Ok(element)
}

/// Decodes a whole document tree.
pub fn decode_document(j: &Json) -> (r: Result<Excalidraw, ParseError>)
    ensures
        r matches Ok(d) ==> d.wf(),
{
    let entries: &Vec<(String, Json)> = match j {
        Json::Obj(entries) => entries,
        _ => {
            return Err(ParseError::Schema);
        },
    };
    let mut type_field: Option<String> = None;
    let mut version: Option<i64> = None;
    let mut source: Option<String> = None;
    let mut elements: Option<Vec<Element>> = None;
    let mut app_state: Option<AppState> = None;
    let mut i: usize = 0;
    while i < entries.len()
        invariant
            elements matches Some(es) ==> forall|k: int|
                0 <= k < es@.len() ==> (#[trigger] es@[k]).wf(),
        decreases entries@.len() - i,
    {
        let key: &String = &entries[i].0;
        let val: &Json = &entries[i].1;
        if str_eq(key, "type") {
            if type_field.is_some() {
                return Err(ParseError::Schema);
            }
            match val {
                Json::Text(s) => {
                    type_field = Some(s.clone());
                },
                _ => {
                    return Err(ParseError::Schema);
                },
            }
        } else if str_eq(key, "version") {
            if version.is_some() {
                return Err(ParseError::Schema);
            }
            version = match decode_i64(val) {
                Ok(v) => Some(v),
                Err(e) => {
                    return Err(e);
                },
            };
        } else if str_eq(key, "source") {
            if source.is_some() {
                return Err(ParseError::Schema);
            }
            match val {
                Json::Text(s) => {
                    source = Some(s.clone());
                },
                _ => {
                    return Err(ParseError::Schema);
                },
            }
        } else if str_eq(key, "elements") {
            if elements.is_some() {
                return Err(ParseError::Schema);
            }
            let items: &Vec<Json> = match val {
                Json::Arr(items) => items,
                _ => {
                    return Err(ParseError::Schema);
                },
            };
            let mut es: Vec<Element> = Vec::new();
            let mut k: usize = 0;
            while k < items.len()
                invariant
                    forall|m: int| 0 <= m < es@.len() ==> (#[trigger] es@[m]).wf(),
                decreases items@.len() - k,
            {
                match decode_element(&items[k]) {
                    Ok(e) => {
                        es.push(e);
                    },
                    Err(e) => {
                        return Err(e);
                    },
                }
                k = k + 1;
            }
            elements = Some(es);
        } else if str_eq(key, "appState") {
            if app_state.is_some() {
                return Err(ParseError::Schema);
            }
            let state_entries: &Vec<(String, Json)> = match val {
                Json::Obj(state_entries) => state_entries,
                _ => {
                    return Err(ParseError::Schema);
                },
            };
            let mut background: Option<String> = None;
            let mut k: usize = 0;
            while k < state_entries.len()
                decreases state_entries@.len() - k,
            {
                if str_eq(&state_entries[k].0, "viewBackgroundColor") {
                    if background.is_some() {
                        return Err(ParseError::Schema);
                    }
                    match &state_entries[k].1 {
                        Json::Text(s) => {
                            background = Some(s.clone());
                        },
                        _ => {
                            return Err(ParseError::Schema);
                        },
                    }
                }
                k = k + 1;
            }
            app_state = match background {
                Some(b) => Some(AppState { view_background_color: b }),
                None => {
                    return Err(ParseError::Schema);
                },
            };
        }
        i = i + 1;
    }
    let doc = Excalidraw {
        type_field: match type_field {
            Some(v) => v,
            None => {
                return Err(ParseError::Schema);
            },
        },
        version: match version {
            Some(v) => v,
            None => {
                return Err(ParseError::Schema);
            },
        },
        source: match source {
            Some(v) => v,
            None => {
                return Err(ParseError::Schema);
            },
        },
        elements: match elements {
            Some(v) => v,
            None => {
                return Err(ParseError::Schema);
            },
        },
        app_state: match app_state {
            Some(v) => v,
            None => {
                return Err(ParseError::Schema);
            },
        },
    };
    Ok(doc)
}

/// The wire number of a signed integer.
pub open spec fn spec_int_json(v: int) -> JsonV {
    JsonV::Int {
        neg: v < 0,
        mag: (if v < 0 {
            -v
        } else {
            v
        }) as u64,
    }
}

/// The wire form of a point.
pub open spec fn spec_encode_point(p: Point) -> JsonV {
    JsonV::Arr(seq![spec_fx_wire(p.x), spec_fx_wire(p.y)])
}

/// The wire name of an element kind.
pub open spec fn spec_type_name(t: ElementType) -> Seq<char> {
    match t {
        ElementType::Rectangle => "rectangle"@,
        ElementType::Diamond => "diamond"@,
        ElementType::Ellipse => "ellipse"@,
        ElementType::Arrow => "arrow"@,
        ElementType::Line => "line"@,
        ElementType::Text => "text"@,
        ElementType::Selection => "selection"@,
    }
}

/// The wire name of a fill pattern.
pub open spec fn spec_fill_name(f: FillStyle) -> Seq<char> {
    match f {
        FillStyle::Solid => "solid"@,
        FillStyle::Hachure => "hachure"@,
        FillStyle::ZigZag => "zig-zag"@,
        FillStyle::CrossHatch => "cross-hatch"@,
        FillStyle::Dots => "dots"@,
        FillStyle::Dashed => "dashed"@,
        FillStyle::ZigZagLine => "zig-zag-line"@,
    }
}

/// The wire name of a stroke style.
pub open spec fn spec_stroke_style_name(s: StrokeStyle) -> Seq<char> {
    match s {
        StrokeStyle::Solid => "solid"@,
        StrokeStyle::Dashed => "dashed"@,
        StrokeStyle::Dotted => "dotted"@,
    }
}

/// The wire name of an arrowhead kind.
pub open spec fn spec_arrowhead_name(a: Arrowhead) -> Seq<char> {
    match a {
        Arrowhead::Arrow => "arrow"@,
        Arrowhead::Bar => "bar"@,
        Arrowhead::Dot => "dot"@,
        Arrowhead::Triangle => "triangle"@,
    }
}

/// The wire tag of a roundness policy.
pub open spec fn spec_roundness_tag(t: RoundnessType) -> u64 {
    match t {
        RoundnessType::Legacy => 1,
        RoundnessType::ProportionalRadius => 2,
        RoundnessType::AdaptiveRadius => 3,
    }
}

/// The wire form of a roundness descriptor.
pub open spec fn spec_encode_roundness(r: Roundness) -> JsonV {
    JsonV::Obj(
        seq![
            ("type"@, spec_u64_wire(spec_roundness_tag(r.type_field))),
            (
                "value"@,
                match r.value {
                    Some(f) => spec_fx_wire(f),
                    None => JsonV::Null,
                },
            ),
        ],
    )
}

/// The wire form of one element, fields in their declared order.
pub open spec fn spec_encode_element(e: Element) -> JsonV {
    JsonV::Obj(
        seq![
            ("id"@, JsonV::Text(e.id@)),
            ("type"@, JsonV::Text(spec_type_name(e.element_type))),
            ("x"@, JsonV::Fixed(e.x.raw as int)),
            ("y"@, JsonV::Fixed(e.y.raw as int)),
            ("width"@, JsonV::Fixed(e.width.raw as int)),
            ("height"@, JsonV::Fixed(e.height.raw as int)),
            ("angle"@, spec_int_json(e.angle as int)),
            ("strokeColor"@, JsonV::Text(e.stroke_color@)),
            ("backgroundColor"@, JsonV::Text(e.background_color@)),
            ("fillStyle"@, JsonV::Text(spec_fill_name(e.fill_style))),
            ("strokeWidth"@, JsonV::Fixed(e.stroke_width.raw as int)),
            ("strokeStyle"@, JsonV::Text(spec_stroke_style_name(e.stroke_style))),
            ("roughness"@, JsonV::Fixed(e.roughness.raw as int)),
            ("opacity"@, JsonV::Int { neg: false, mag: e.opacity as u64 }),
            ("seed"@, JsonV::Int { neg: false, mag: e.seed }),
            ("version"@, spec_int_json(e.version as int)),
            ("versionNonce"@, spec_int_json(e.version_nonce as int)),
            ("isDeleted"@, JsonV::Bool(e.is_deleted)),
            ("updated"@, spec_int_json(e.updated as int)),
            ("locked"@, JsonV::Bool(e.locked)),
            (
                "roundness"@,
                match e.roundness {
                    Some(r) => spec_encode_roundness(r),
                    None => JsonV::Null,
                },
            ),
            (
                "points"@,
                match e.points {
                    Some(ps) => JsonV::Arr(
                        Seq::new(ps@.len(), |i: int| spec_encode_point(ps@[i])),
                    ),
                    None => JsonV::Null,
                },
            ),
            (
                "startArrowhead"@,
                match e.start_arrowhead {
                    Some(a) => JsonV::Text(spec_arrowhead_name(a)),
                    None => JsonV::Null,
                },
            ),
            (
                "endArrowhead"@,
                match e.end_arrowhead {
                    Some(a) => JsonV::Text(spec_arrowhead_name(a)),
                    None => JsonV::Null,
                },
            ),
        ],
    )
}

/// The wire form of a whole document.
pub open spec fn spec_encode_document(d: Excalidraw) -> JsonV {
    JsonV::Obj(
        seq![
            ("type"@, JsonV::Text(d.type_field@)),
            ("version"@, spec_int_json(d.version as int)),
            ("source"@, JsonV::Text(d.source@)),
            (
                "elements"@,
                JsonV::Arr(
                    Seq::new(d.elements@.len(), |i: int| spec_encode_element(d.elements@[i])),
                ),
            ),
            (
                "appState"@,
                JsonV::Obj(
                    seq![("viewBackgroundColor"@, JsonV::Text(d.app_state.view_background_color@))],
                ),
            ),
        ],
    )
}

fn encode_i64(v: i64) -> (r: Json)
    ensures
        r@ == spec_int_json(v as int),
{
    if v < 0 {
        Json::Int { neg: true, mag: (-(v as i128)) as u64 }
    } else {
        Json::Int { neg: false, mag: v as u64 }
    }
}

/// Encodes a point as its wire array.
pub fn encode_point(p: &Point) -> (r: Json)
    ensures
        r@ == spec_encode_point(*p),
{
    let mut items: Vec<Json> = Vec::new();
    items.push(Json::Fixed(p.x));
    items.push(Json::Fixed(p.y));
    proof {
        crate::json::lemma_view_seq(items@);
        assert(crate::json::spec_view_seq(items@) =~= seq![
            JsonV::Fixed(p.x.raw as int),
            JsonV::Fixed(p.y.raw as int),
        ]);
    }
    Json::Arr(items)
}

/// Encodes a roundness descriptor.
pub fn encode_roundness(r: &Roundness) -> (res: Json)
    ensures
        res@ == spec_encode_roundness(*r),
{
    let tag: u64 = match r.type_field {
        RoundnessType::Legacy => 1,
        RoundnessType::ProportionalRadius => 2,
        RoundnessType::AdaptiveRadius => 3,
    };
    let value: Json = match r.value {
        Some(f) => Json::Fixed(f),
        None => Json::Null,
    };
    let mut entries: Vec<(String, Json)> = Vec::new();
    entries.push((String::from_str("type"), Json::Int { neg: false, mag: tag }));
    entries.push((String::from_str("value"), value));
    proof {
        crate::json::lemma_view_entries(entries@);
        assert(crate::json::spec_view_entries(entries@) =~= spec_encode_roundness(*r)->Obj_0);
    }
    Json::Obj(entries)
}

/// Encodes one element.
#[verifier::rlimit(100)]
pub fn encode_element(e: &Element) -> (r: Json)
    ensures
        r@ == spec_encode_element(*e),
{
    let mut entries: Vec<(String, Json)> = Vec::new();
    entries.push((String::from_str("id"), Json::Text(e.id.clone())));
    let kind_name: &str = match e.element_type {
        ElementType::Rectangle => "rectangle",
        ElementType::Diamond => "diamond",
        ElementType::Ellipse => "ellipse",
        ElementType::Arrow => "arrow",
        ElementType::Line => "line",
        ElementType::Text => "text",
        ElementType::Selection => "selection",
    };
    entries.push((String::from_str("type"), Json::Text(String::from_str(kind_name))));
    entries.push((String::from_str("x"), Json::Fixed(e.x)));
    entries.push((String::from_str("y"), Json::Fixed(e.y)));
    entries.push((String::from_str("width"), Json::Fixed(e.width)));
    entries.push((String::from_str("height"), Json::Fixed(e.height)));
    entries.push((String::from_str("angle"), encode_i64(e.angle)));
    entries.push((String::from_str("strokeColor"), Json::Text(e.stroke_color.clone())));
    entries.push(
        (String::from_str("backgroundColor"), Json::Text(e.background_color.clone())),
    );
    let fill_name: &str = match e.fill_style {
        FillStyle::Solid => "solid",
        FillStyle::Hachure => "hachure",
        FillStyle::ZigZag => "zig-zag",
        FillStyle::CrossHatch => "cross-hatch",
        FillStyle::Dots => "dots",
        FillStyle::Dashed => "dashed",
        FillStyle::ZigZagLine => "zig-zag-line",
    };
    entries.push((String::from_str("fillStyle"), Json::Text(String::from_str(fill_name))));
    entries.push((String::from_str("strokeWidth"), Json::Fixed(e.stroke_width)));
    let stroke_style_name: &str = match e.stroke_style {
        StrokeStyle::Solid => "solid",
        StrokeStyle::Dashed => "dashed",
        StrokeStyle::Dotted => "dotted",
    };
    entries.push(
        (String::from_str("strokeStyle"), Json::Text(String::from_str(stroke_style_name))),
    );
    entries.push((String::from_str("roughness"), Json::Fixed(e.roughness)));
    entries.push((String::from_str("opacity"), Json::Int { neg: false, mag: e.opacity as u64 }));
    entries.push((String::from_str("seed"), Json::Int { neg: false, mag: e.seed }));
    entries.push((String::from_str("version"), encode_i64(e.version)));
    entries.push((String::from_str("versionNonce"), encode_i64(e.version_nonce)));
    entries.push((String::from_str("isDeleted"), Json::Bool(e.is_deleted)));
    entries.push((String::from_str("updated"), encode_i64(e.updated)));
    entries.push((String::from_str("locked"), Json::Bool(e.locked)));
    let roundness: Json = match &e.roundness {
        Some(r) => encode_roundness(r),
        None => Json::Null,
    };
    entries.push((String::from_str("roundness"), roundness));
    let points: Json = match &e.points {
        Some(ps) => {
            let mut items: Vec<Json> = Vec::new();
            let mut i: usize = 0;
            while i < ps.len()
                invariant
                    items@.len() == i <= ps@.len(),
                    forall|k: int|
                        0 <= k < i ==> (#[trigger] items@[k])@ == spec_encode_point(ps@[k]),
                decreases ps@.len() - i,
            {
                items.push(encode_point(&ps[i]));
                i = i + 1;
            }
            proof {
                crate::json::lemma_view_seq(items@);
                assert(crate::json::spec_view_seq(items@) =~= Seq::new(
                    ps@.len(),
                    |k: int| spec_encode_point(ps@[k]),
                ));
            }
            Json::Arr(items)
        },
        None => Json::Null,
    };
    entries.push((String::from_str("points"), points));
    let start_arrowhead: Json = match e.start_arrowhead {
        Some(a) => Json::Text(String::from_str(arrowhead_name(a))),
        None => Json::Null,
    };
    entries.push((String::from_str("startArrowhead"), start_arrowhead));
    let end_arrowhead: Json = match e.end_arrowhead {
        Some(a) => Json::Text(String::from_str(arrowhead_name(a))),
        None => Json::Null,
    };
    entries.push((String::from_str("endArrowhead"), end_arrowhead));
    proof {
        crate::json::lemma_view_entries(entries@);
        assert(crate::json::spec_view_entries(entries@) =~= spec_encode_element(*e)->Obj_0);
    }
    Json::Obj(entries)
}

fn arrowhead_name(a: Arrowhead) -> (r: &'static str)
    ensures
        r@ == spec_arrowhead_name(a),
{
    match a {
        Arrowhead::Arrow => "arrow",
        Arrowhead::Bar => "bar",
        Arrowhead::Dot => "dot",
        Arrowhead::Triangle => "triangle",
    }
}

/// Encodes a whole document.
pub fn encode_document(d: &Excalidraw) -> (r: Json)
    ensures
        r@ == spec_encode_document(*d),
{
    let mut entries: Vec<(String, Json)> = Vec::new();
    entries.push((String::from_str("type"), Json::Text(d.type_field.clone())));
    entries.push((String::from_str("version"), encode_i64(d.version)));
    entries.push((String::from_str("source"), Json::Text(d.source.clone())));
    let mut items: Vec<Json> = Vec::new();
    let mut i: usize = 0;
    while i < d.elements.len()
        invariant
            items@.len() == i <= d.elements@.len(),
            forall|k: int|
                0 <= k < i ==> (#[trigger] items@[k])@ == spec_encode_element(d.elements@[k]),
        decreases d.elements@.len() - i,
    {
        items.push(encode_element(&d.elements[i]));
        i = i + 1;
    }
    proof {
        crate::json::lemma_view_seq(items@);
        assert(crate::json::spec_view_seq(items@) =~= Seq::new(
            d.elements@.len(),
            |k: int| spec_encode_element(d.elements@[k]),
        ));
    }
    entries.push((String::from_str("elements"), Json::Arr(items)));
    let mut state_entries: Vec<(String, Json)> = Vec::new();
    state_entries.push(
        (
            String::from_str("viewBackgroundColor"),
            Json::Text(d.app_state.view_background_color.clone()),
        ),
    );
    proof {
        crate::json::lemma_view_entries(state_entries@);
        assert(crate::json::spec_view_entries(state_entries@) =~= seq![
            ("viewBackgroundColor"@, JsonV::Text(d.app_state.view_background_color@)),
        ]);
    }
    entries.push((String::from_str("appState"), Json::Obj(state_entries)));
    proof {
        crate::json::lemma_view_entries(entries@);
        assert(crate::json::spec_view_entries(entries@) =~= spec_encode_document(*d)->Obj_0);
    }
    Json::Obj(entries)
}

impl Excalidraw {
    /// Reads a document from its JSON text.  On success the document
    /// satisfies every invariant the library relies on.
    pub fn from_json(json: &str) -> (r: Result<Excalidraw, ParseError>)
        ensures
            r matches Ok(d) ==> d.wf(),
    {
        let bytes: Vec<u8> = json.as_bytes_vec();
        let n: usize = bytes.len();
        match crate::json::parse::parse_json(&bytes) {
            Some(v) => decode_document(&v),
            None => Err(ParseError::Syntax),
        }
    }

    /// Writes the document as JSON text: exactly the canonical print of its
    /// wire form.  Writing cannot fail: the printer emits pure ASCII.
    pub fn to_json(&self) -> (r: Result<String, ParseError>)
        ensures
            r is Ok,
            r matches Ok(s) ==> vstd::utf8::encode_utf8(s@) == crate::json::print::spec_print(
                spec_encode_document(*self),
            ),
    {
        let v: Json = encode_document(self);
        let mut out: Vec<u8> = Vec::new();
        crate::json::print::print_json(&v, &mut out);
        proof {
            crate::json::print::lemma_print_ascii(spec_encode_document(*self));
            crate::json::print::lemma_ascii_valid_utf8(out@);
        }
        match crate::string_from_utf8(out) {
            Some(s) => Ok(s),
            None => {
                proof {
                    assert(false);
                }
                Err(ParseError::Syntax)
            },
        }
    }
}

} // verus!
