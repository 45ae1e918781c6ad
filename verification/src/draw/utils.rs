//! The style resolver and small geometric helpers shared by the drawers.

use vstd::prelude::*;
use crate::draw::{Options, Rgba};
use crate::element::{Element, Roundness, RoundnessType, StrokeStyle};
use crate::fixed::Fx;
use crate::point::Point;

verus! {

/// ASCII hexadecimal digit, either case.
pub open spec fn is_hex_digit(c: char) -> bool {
    (48 <= c as u32 && c as u32 <= 57) || (97 <= c as u32 && c as u32 <= 102) || (65 <= c as u32
        && c as u32 <= 70)
}

/// Value of a hexadecimal digit.
pub open spec fn hex_digit_val(c: char) -> int {
    if 48 <= c as u32 && c as u32 <= 57 {
        c as u32 - 48
    } else if 97 <= c as u32 && c as u32 <= 102 {
        c as u32 - 97 + 10
    } else if 65 <= c as u32 && c as u32 <= 70 {
        c as u32 - 65 + 10
    } else {
        0
    }
}

/// Value of the `k`-th two-digit group of a hex string.
pub open spec fn hex_pair(t: Seq<char>, k: int) -> int {
    16 * hex_digit_val(t[2 * k]) + hex_digit_val(t[2 * k + 1])
}

/// The string with every leading `#` removed.
pub open spec fn strip_hash(s: Seq<char>) -> Seq<char>
    decreases s.len(),
{
    if s.len() > 0 && s[0] == '#' {
        strip_hash(s.drop_first())
    } else {
        s
    }
}

/// A color string that resolves: after the leading `#`s, exactly six or
/// eight hex digits.
pub open spec fn hex_color_ok(s: Seq<char>) -> bool {
    let t = strip_hash(s);
    (t.len() == 6 || t.len() == 8) && (forall|j: int|
        0 <= j < t.len() ==> is_hex_digit(#[trigger] t[j]))
}

/// The color denoted by a stripped hex string, with the alpha channel scaled
/// by `opacity / 100`.  A six-digit string has a full base alpha of 255.
pub open spec fn spec_hex_rgba(t: Seq<char>, opacity: u8) -> Rgba {
    let base: int = if t.len() == 8 {
        hex_pair(t, 3)
    } else {
        255
    };
    Rgba {
        red: hex_pair(t, 0) as u8,
        green: hex_pair(t, 1) as u8,
        blue: hex_pair(t, 2) as u8,
        alpha: ((base * opacity) / 100) as u8,
    }
}

/// What an element's color string resolves to: the denoted color, or the
/// transparent-black fallback when the string is malformed.  Resolution never
/// aborts a render.
pub open spec fn spec_resolve_color(s: Seq<char>, opacity: u8) -> Rgba {
    if hex_color_ok(s) {
        spec_hex_rgba(strip_hash(s), opacity)
    } else {
        Rgba { red: 0, green: 0, blue: 0, alpha: 0 }
    }
}

/// Effective stroke width in raw units: dashed and dotted strokes are drawn
/// half a unit wider to compensate for the thinner look of dashing.
pub open spec fn spec_stroke_width(style: StrokeStyle, w: int) -> int {
    if style is Solid {
        w
    } else {
        w + 32768
    }
}

/// Dash pattern in raw units: none for solid strokes, `[8, 8 + w]` for
/// dashed, `[1.5, 6 + w]` for dotted.
pub open spec fn spec_dash(style: StrokeStyle, w: int) -> Seq<Fx> {
    match style {
        StrokeStyle::Solid => Seq::empty(),
        StrokeStyle::Dashed => seq![Fx { raw: 524288 }, Fx { raw: (524288 + w) as i64 }],
        StrokeStyle::Dotted => seq![Fx { raw: 98304 }, Fx { raw: (393216 + w) as i64 }],
    }
}

/// Corner radius in raw units under a roundness policy: a quarter of `x` for
/// the proportional policies; for the adaptive policy the fixed radius
/// (default 32 units) once `x` passes four times that radius, else again a
/// quarter of `x`.
pub open spec fn spec_corner_radius(x: int, r: Roundness) -> int {
    match r.type_field {
        RoundnessType::Legacy => x / 4,
        RoundnessType::ProportionalRadius => x / 4,
        RoundnessType::AdaptiveRadius => {
            let f: int = match r.value {
                Some(v) => v.raw as int,
                None => 2097152,
            };
            if x <= f * 4 {
                x / 4
            } else {
                f
            }
        },
    }
}

fn hex_digit(c: char) -> (r: Option<u8>)
    ensures
        r is Some <==> is_hex_digit(c),
        r matches Some(v) ==> v == hex_digit_val(c),
{
    let u: u32 = c as u32;
    if 48 <= u && u <= 57 {
        Some((u - 48) as u8)
    } else if 97 <= u && u <= 102 {
        Some((u - 97 + 10) as u8)
    } else if 65 <= u && u <= 70 {
        Some((u - 65 + 10) as u8)
    } else {
        None
    }
}

fn pair_at(s: &str, j: usize) -> (r: Option<u8>)
    requires
        j + 2 <= s@.len() <= usize::MAX,
    ensures
        r is Some <==> is_hex_digit(s@[j as int]) && is_hex_digit(s@[j + 1]),
        r matches Some(v) ==> v == 16 * hex_digit_val(s@[j as int]) + hex_digit_val(s@[j + 1]),
{
    let c1: char = s.get_char(j);
    let c2: char = s.get_char(j + 1);
    match (hex_digit(c1), hex_digit(c2)) {
        (Some(a), Some(b)) => Some(a * 16 + b),
        _ => None,
    }
}

proof fn lemma_strip_hash_skip(s: Seq<char>, i: int)
    requires
        0 <= i <= s.len(),
        forall|k: int| 0 <= k < i ==> s[k] == '#',
        i == s.len() || s[i] != '#',
    ensures
        strip_hash(s) == s.skip(i),
    decreases i,
{
    if i == 0 {
        assert(s.skip(0) =~= s);
    } else {
        lemma_strip_hash_skip(s.drop_first(), i - 1);
        assert(s.drop_first().skip(i - 1) =~= s.skip(i));
    }
}

/// Resolves a `#`-prefixed hex color string into an RGBA color, scaling the
/// alpha channel by `opacity / 100`.  `None` exactly when the string does not
/// hold six or eight hex digits after its leading `#`s.
pub fn srgba_from_hex(hex: &str, opacity: u8) -> (r: Option<Rgba>)
    requires
        opacity <= 100,
    ensures
        r is Some <==> hex_color_ok(hex@),
        hex_color_ok(hex@) ==> r == Some(spec_hex_rgba(strip_hash(hex@), opacity)),
{
    let n: usize = hex.unicode_len();
    let mut i: usize = 0;
    while i < n && hex.get_char(i) == '#'
        invariant
            i <= n,
            n == hex@.len(),
            forall|k: int| 0 <= k < i ==> hex@[k] == '#',
        decreases n - i,
    {
        i = i + 1;
    }
    proof {
        lemma_strip_hash_skip(hex@, i as int);
    }
    let ghost t: Seq<char> = hex@.skip(i as int);
    proof {
        assert forall|m: int| 0 <= m < t.len() implies t[m] == hex@[i + m] by {}
    }
    if n - i == 6 {
        match (pair_at(hex, i), pair_at(hex, i + 2), pair_at(hex, i + 4)) {
            (Some(r0), Some(g0), Some(b0)) => {
                proof {
                    assert forall|j: int| 0 <= j < t.len() implies is_hex_digit(t[j]) by {
                        assert(t[j] == hex@[i + j]);
                    }
                }
                let alpha: u32 = 255 * (opacity as u32) / 100;
                Some(Rgba { red: r0, green: g0, blue: b0, alpha: alpha as u8 })
            },
            _ => {
                proof {
                    if hex_color_ok(hex@) {
                        assert(is_hex_digit(t[0]) && is_hex_digit(t[1]) && is_hex_digit(t[2])
                            && is_hex_digit(t[3]) && is_hex_digit(t[4]) && is_hex_digit(t[5]));
                    }
                }
                None
            },
        }
    } else if n - i == 8 {
        match (pair_at(hex, i), pair_at(hex, i + 2), pair_at(hex, i + 4), pair_at(hex, i + 6)) {
            (Some(r0), Some(g0), Some(b0), Some(a0)) => {
                proof {
                    assert forall|j: int| 0 <= j < t.len() implies is_hex_digit(t[j]) by {
                        assert(t[j] == hex@[i + j]);
                    }
                }
                proof {
                    assert((a0 as int) * (opacity as int) <= 25500) by (nonlinear_arith)
                        requires
                            a0 <= 255,
                            opacity <= 100,
                    ;
                }
                let alpha: u32 = (a0 as u32) * (opacity as u32) / 100;
                Some(Rgba { red: r0, green: g0, blue: b0, alpha: alpha as u8 })
            },
            _ => {
                proof {
                    if hex_color_ok(hex@) {
                        assert(is_hex_digit(t[0]) && is_hex_digit(t[1]) && is_hex_digit(t[2])
                            && is_hex_digit(t[3]) && is_hex_digit(t[4]) && is_hex_digit(t[5])
                            && is_hex_digit(t[6]) && is_hex_digit(t[7]));
                    }
                }
                None
            },
        }
    } else {
        None
    }
}

/// Effective stroke width under a stroke style.
pub fn get_stroke_width(stroke_style: &StrokeStyle, stroke_width: Fx) -> (r: Fx)
    requires
        stroke_width.bounded(0x2000_0000_0000),
    ensures
        r.raw == spec_stroke_width(*stroke_style, stroke_width.raw as int),
{
    match stroke_style {
        StrokeStyle::Solid => stroke_width,
        _ => Fx { raw: stroke_width.raw + 32768 },
    }
}

/// Dash pattern for a stroke style and width.
pub fn stroke_line_dash(stroke_style: &StrokeStyle, stroke_width: Fx) -> (r: Vec<Fx>)
    requires
        stroke_width.bounded(0x2000_0000_0000),
    ensures
        r@ == spec_dash(*stroke_style, stroke_width.raw as int),
{
    match stroke_style {
        StrokeStyle::Solid => {
            let r: Vec<Fx> = Vec::new();
            proof {
                assert(r@ =~= spec_dash(StrokeStyle::Solid, stroke_width.raw as int));
            }
            r
        },
        StrokeStyle::Dashed => {
            let mut r: Vec<Fx> = Vec::new();
            r.push(Fx { raw: 524288 });
            r.push(Fx { raw: 524288 + stroke_width.raw });
            proof {
                assert(r@ =~= spec_dash(StrokeStyle::Dashed, stroke_width.raw as int));
            }
            r
        },
        StrokeStyle::Dotted => {
            let mut r: Vec<Fx> = Vec::new();
            r.push(Fx { raw: 98304 });
            r.push(Fx { raw: 393216 + stroke_width.raw });
            proof {
                assert(r@ =~= spec_dash(StrokeStyle::Dotted, stroke_width.raw as int));
            }
            r
        },
    }
}

/// Corner radius for a span `x` under a roundness descriptor.
pub fn get_corner_radius(x: Fx, roundness: &Roundness) -> (r: Fx)
    requires
        x.bounded(0x2000_0000_0000),
        roundness.value matches Some(v) ==> v.bounded(0x2000_0000_0000),
    ensures
        r.raw == spec_corner_radius(x.raw as int, *roundness),
{
    match roundness.type_field {
        RoundnessType::Legacy => x.shrink(4),
        RoundnessType::ProportionalRadius => x.shrink(4),
        RoundnessType::AdaptiveRadius => {
            let fixed_radius_size: Fx = match roundness.value {
                Some(v) => v,
                None => Fx { raw: 2097152 },
            };
            let cutoff_raw: i64 = fixed_radius_size.raw * 4;
            if x.raw <= cutoff_raw {
                x.shrink(4)
            } else {
                fixed_radius_size
            }
        },
    }
}

/// Euclidean length of the vector `(a, b)`, rounded down to a raw unit.
pub fn hypot(a: Fx, b: Fx) -> (r: Fx)
    requires
        a.bounded(0x2000_0000_0000_0000),
        b.bounded(0x2000_0000_0000_0000),
    ensures
        r.raw >= 0,
        r.raw == crate::fixed::sqrt_floor(a.raw * a.raw + b.raw * b.raw),
{
    a.hypot_with(b)
}

/// Euclidean distance between two points, rounded down to a raw unit.
pub fn distance2d(point1: &Point, point2: &Point) -> (r: Fx)
    requires
        point1.x.bounded(0x2000_0000_0000),
        point1.y.bounded(0x2000_0000_0000),
        point2.x.bounded(0x2000_0000_0000),
        point2.y.bounded(0x2000_0000_0000),
    ensures
        r.raw >= 0,
        r.raw * r.raw <= (point2.x.raw - point1.x.raw) * (point2.x.raw - point1.x.raw) + (
        point2.y.raw - point1.y.raw) * (point2.y.raw - point1.y.raw),
        (point2.x.raw - point1.x.raw) * (point2.x.raw - point1.x.raw) + (point2.y.raw
            - point1.y.raw) * (point2.y.raw - point1.y.raw) < (r.raw + 1) * (r.raw + 1),
        r.raw == crate::fixed::sqrt_floor(
            (point2.x.raw - point1.x.raw) * (point2.x.raw - point1.x.raw) + (point2.y.raw
                - point1.y.raw) * (point2.y.raw - point1.y.raw),
        ),
{
    let xd: Fx = point2.x.minus(point1.x);
    let yd: Fx = point2.y.minus(point1.y);
    xd.hypot_with(yd)
}

/// A path of at least three points whose first and last point coincide.
pub fn is_path_loop(points: &Vec<Point>) -> (r: bool)
    requires
        forall|i: int| 0 <= i < points@.len() ==> (#[trigger] points@[i]).in_coord_range(),
    ensures
        r == (points@.len() >= 3 && points@.first() == points@.last()),
{
    if points.len() >= 3 {
        let first: &Point = &points[0];
        let last: &Point = &points[points.len() - 1];
        let d: Fx = distance2d(first, last);
        let r: bool = d.raw <= 0;
        proof {
            let dx: int = last.x.raw - first.x.raw;
            let dy: int = last.y.raw - first.y.raw;
            assert(dx * dx >= 0 && dy * dy >= 0) by (nonlinear_arith);
            if d.raw == 0 {
                assert((d.raw + 1) * (d.raw + 1) == 1) by (nonlinear_arith)
                    requires
                        d.raw == 0,
                ;
                assert(dx * dx + dy * dy < 1);
                assert(dx == 0) by (nonlinear_arith)
                    requires
                        dx * dx <= 0,
                ;
                assert(dy == 0) by (nonlinear_arith)
                    requires
                        dy * dy <= 0,
                ;
            }
            if points@.first() == points@.last() {
                assert(dx == 0 && dy == 0);
                assert(dx * dx + dy * dy == 0) by (nonlinear_arith)
                    requires
                        dx == 0,
                        dy == 0,
                ;
                assert(d.raw == 0) by (nonlinear_arith)
                    requires
                        d.raw >= 0,
                        d.raw * d.raw <= 0,
                ;
            }
        }
        r
    } else {
        false
    }
}

/// The style fields that every draw operation of an element shares, marker
/// or outline: everything but the fill color, the fill pattern, the dash
/// pattern and the curve-fitting override.
pub open spec fn options_base(o: Options, e: Element, continuous_path: bool) -> bool {
    &&& o.seed == e.seed
    &&& o.stroke_width.raw == spec_stroke_width(e.stroke_style, e.stroke_width.raw as int)
    &&& o.fill_weight.raw == e.stroke_width.raw as int / 2
    &&& o.hachure_gap.raw == e.stroke_width.raw * 4
    &&& o.disable_multi_stroke == !(e.stroke_style is Solid)
    &&& o.roughness == e.roughness
    &&& o.stroke == spec_resolve_color(e.stroke_color@, e.opacity)
    &&& o.preserve_vertices == continuous_path
    &&& o.round_line_ends == true
}

/// The style fields that every drawer resolves the same way: everything but
/// the interior fill color and the curve-fitting override.
pub open spec fn options_core(o: Options, e: Element, continuous_path: bool) -> bool {
    &&& options_base(o, e, continuous_path)
    &&& o.fill_style == e.fill_style
    &&& o.stroke_line_dash@ == spec_dash(e.stroke_style, e.stroke_width.raw as int)
}

/// The full resolved style of a shape drawn with its own background fill.
pub open spec fn options_match(o: Options, e: Element, continuous_path: bool) -> bool {
    &&& options_core(o, e, continuous_path)
    &&& o.fill == spec_resolve_color(e.background_color@, e.opacity)
    &&& o.curve_fitting is None
}

/// Resolves an element's declarative style into the configuration handed to
/// the sketch-path generator.  `continuous_path` suppresses corner
/// perturbation so adjoining segments of a closed outline still meet.
pub fn default_options_generator(element: &Element, continuous_path: bool) -> (r: Options)
    requires
        element.wf(),
    ensures
        options_match(r, *element, continuous_path),
{
    let stroke_color: Rgba = match srgba_from_hex(element.stroke_color.as_str(), element.opacity) {
        Some(c) => c,
        None => Rgba { red: 0, green: 0, blue: 0, alpha: 0 },
    };
    let fill_color: Rgba = match srgba_from_hex(
        element.background_color.as_str(),
        element.opacity,
    ) {
        Some(c) => c,
        None => Rgba { red: 0, green: 0, blue: 0, alpha: 0 },
    };
    let disable_multi_stroke: bool = match element.stroke_style {
        StrokeStyle::Solid => false,
        _ => true,
    };
    Options {
        seed: element.seed,
        fill_style: element.fill_style,
        stroke_width: get_stroke_width(&element.stroke_style, element.stroke_width),
        stroke_line_dash: stroke_line_dash(&element.stroke_style, element.stroke_width),
        fill_weight: element.stroke_width.shrink(2),
        hachure_gap: Fx { raw: element.stroke_width.raw * 4 },
        disable_multi_stroke,
        roughness: element.roughness,
        stroke: stroke_color,
        fill: fill_color,
        preserve_vertices: continuous_path,
        round_line_ends: true,
        curve_fitting: None,
    }
}

} // verus!
