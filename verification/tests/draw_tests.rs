use excalidraw::draw::arrow::{equation, get_arrow_point, get_bar_arrowhead_point, get_dot_arrowhead_point, marker_ops, rotate};
use excalidraw::draw::utils::{
    default_options_generator, distance2d, get_corner_radius, get_stroke_width, is_path_loop,
    srgba_from_hex, stroke_line_dash,
};
use excalidraw::draw::{DrawConfig, ElementPlan, PathCmd, Rgba, ShapeKind};
use excalidraw::element::{
    Arrowhead, Element, ElementType, FillStyle, Roundness, RoundnessType, StrokeStyle,
};
use excalidraw::fixed::Fx;
use excalidraw::point::Point;
use excalidraw::{AppState, Excalidraw};

fn fx(units: i32) -> Fx {
    Fx::from_int(units)
}

fn pt(x: i32, y: i32) -> Point {
    Point { x: fx(x), y: fx(y) }
}

fn sample_element(kind: ElementType, x: i32, y: i32, w: i32, h: i32) -> Element {
    Element {
        id: "e".to_string(),
        element_type: kind,
        x: fx(x),
        y: fx(y),
        width: fx(w),
        height: fx(h),
        angle: 0,
        stroke_color: "#FF0000".to_string(),
        background_color: "#00FF00".to_string(),
        fill_style: FillStyle::Hachure,
        stroke_width: fx(2),
        stroke_style: StrokeStyle::Solid,
        roughness: fx(1),
        opacity: 100,
        seed: 7,
        version: 1,
        version_nonce: 2,
        is_deleted: false,
        updated: 3,
        locked: false,
        roundness: None,
        points: None,
        start_arrowhead: None,
        end_arrowhead: None,
    }
}

#[test]
fn bounding_box_covers_both_elements() {
    let doc = Excalidraw {
        type_field: "excalidraw".to_string(),
        version: 2,
        source: "local".to_string(),
        elements: vec![
            sample_element(ElementType::Rectangle, 0, 0, 10, 10),
            sample_element(ElementType::Ellipse, 20, 20, 5, 5),
        ],
        app_state: AppState {
            view_background_color: "#fff".to_string(),
        },
    };
    let rect = doc.get_canvas_size();
    assert_eq!(rect.x, fx(0));
    assert_eq!(rect.y, fx(0));
    assert_eq!(rect.width, fx(25));
    assert_eq!(rect.height, fx(25));
}

#[test]
fn bounding_box_of_empty_document_is_zero_at_origin() {
    let doc = Excalidraw {
        type_field: "excalidraw".to_string(),
        version: 2,
        source: "local".to_string(),
        elements: vec![],
        app_state: AppState {
            view_background_color: "#fff".to_string(),
        },
    };
    let rect = doc.get_canvas_size();
    assert_eq!((rect.x, rect.y, rect.width, rect.height), (fx(0), fx(0), fx(0), fx(0)));
}

#[test]
fn bounding_box_skips_deleted_elements() {
    let mut gone = sample_element(ElementType::Rectangle, 500, 500, 50, 50);
    gone.is_deleted = true;
    let doc = Excalidraw {
        type_field: "excalidraw".to_string(),
        version: 2,
        source: "local".to_string(),
        elements: vec![sample_element(ElementType::Rectangle, 1, 2, 3, 4), gone],
        app_state: AppState {
            view_background_color: "#fff".to_string(),
        },
    };
    let rect = doc.get_canvas_size();
    assert_eq!((rect.x, rect.y, rect.width, rect.height), (fx(1), fx(2), fx(3), fx(4)));
}

#[test]
fn corner_radius_follows_the_policy() {
    let legacy = Roundness { type_field: RoundnessType::Legacy, value: None };
    let proportional = Roundness { type_field: RoundnessType::ProportionalRadius, value: None };
    let adaptive = Roundness { type_field: RoundnessType::AdaptiveRadius, value: None };
    assert_eq!(get_corner_radius(fx(40), &legacy), fx(10));
    assert_eq!(get_corner_radius(fx(40), &proportional), fx(10));
    // 40 is below the adaptive cutoff of 32 / 0.25 = 128, so it falls back.
    assert_eq!(get_corner_radius(fx(40), &adaptive), fx(10));
    // 200 is above the cutoff, so the fixed radius wins.
    assert_eq!(get_corner_radius(fx(200), &adaptive), fx(32));
}

#[test]
fn stroke_width_is_adjusted_for_dashing() {
    assert_eq!(get_stroke_width(&StrokeStyle::Solid, fx(2)), fx(2));
    assert_eq!(get_stroke_width(&StrokeStyle::Dashed, fx(2)), Fx::from_raw(2 * 65536 + 32768));
    assert_eq!(get_stroke_width(&StrokeStyle::Dotted, fx(2)), Fx::from_raw(2 * 65536 + 32768));
}

#[test]
fn dash_pattern_follows_the_style() {
    assert_eq!(stroke_line_dash(&StrokeStyle::Solid, fx(2)), vec![]);
    assert_eq!(stroke_line_dash(&StrokeStyle::Dashed, fx(2)), vec![fx(8), fx(10)]);
    assert_eq!(
        stroke_line_dash(&StrokeStyle::Dotted, fx(2)),
        vec![Fx::from_raw(98304), fx(8)]
    );
}

#[test]
fn color_resolution_scales_alpha_by_opacity() {
    assert_eq!(
        srgba_from_hex("#FF0000", 50),
        Some(Rgba { red: 255, green: 0, blue: 0, alpha: 127 })
    );
    assert_eq!(
        srgba_from_hex("#11223344", 100),
        Some(Rgba { red: 0x11, green: 0x22, blue: 0x33, alpha: 0x44 })
    );
    // A three-digit string does not resolve; the resolver substitutes
    // transparent black instead of failing the render.
    assert_eq!(srgba_from_hex("#ABC", 100), None);
    let mut bad = sample_element(ElementType::Rectangle, 0, 0, 10, 10);
    bad.stroke_color = "#ABC".to_string();
    let options = default_options_generator(&bad, false);
    assert_eq!(options.stroke, Rgba { red: 0, green: 0, blue: 0, alpha: 0 });
}

#[test]
fn rendering_the_same_element_twice_is_bit_stable() {
    let doc = Excalidraw {
        type_field: "excalidraw".to_string(),
        version: 2,
        source: "local".to_string(),
        elements: vec![
            sample_element(ElementType::Rectangle, 0, 0, 100, 100),
            sample_element(ElementType::Ellipse, 10, 10, 40, 20),
        ],
        app_state: AppState {
            view_background_color: "#fff".to_string(),
        },
    };
    let first = doc.draw(fx(100));
    let second = doc.draw(fx(100));
    assert_eq!(first, second);
}

#[test]
fn one_rectangle_plan_lands_at_the_padded_origin() {
    let doc = Excalidraw {
        type_field: "excalidraw".to_string(),
        version: 2,
        source: "local".to_string(),
        elements: vec![sample_element(ElementType::Rectangle, 0, 0, 100, 100)],
        app_state: AppState {
            view_background_color: "#fff".to_string(),
        },
    };
    let (config, plans) = doc.draw(fx(100));
    assert_eq!(config, DrawConfig { offset_x: fx(100), offset_y: fx(100) });
    assert_eq!(plans.len(), 1);
    match &plans[0] {
        ElementPlan::Simple(op) => {
            assert_eq!(op.translate_x, fx(100));
            assert_eq!(op.translate_y, fx(100));
            assert_eq!(
                op.shape,
                ShapeKind::Rect { x: fx(0), y: fx(0), width: fx(100), height: fx(100) }
            );
            assert_eq!(op.options.seed, 7);
            assert!(!op.options.preserve_vertices);
        }
        other => panic!("unexpected plan {:?}", other),
    }
}

#[test]
fn deleted_and_text_elements_are_skipped() {
    let mut deleted = sample_element(ElementType::Rectangle, 0, 0, 10, 10);
    deleted.is_deleted = true;
    let text = sample_element(ElementType::Text, 0, 0, 10, 10);
    let doc = Excalidraw {
        type_field: "excalidraw".to_string(),
        version: 2,
        source: "local".to_string(),
        elements: vec![deleted, text],
        app_state: AppState {
            view_background_color: "#fff".to_string(),
        },
    };
    let (_, plans) = doc.draw(fx(0));
    assert_eq!(plans, vec![ElementPlan::Skip, ElementPlan::Skip]);
}

#[test]
fn rounded_rectangle_outline_uses_quadratic_corners() {
    let mut e = sample_element(ElementType::Rectangle, 0, 0, 40, 80);
    e.roundness = Some(Roundness { type_field: RoundnessType::Legacy, value: None });
    let (_, plans) = Excalidraw {
        type_field: "excalidraw".to_string(),
        version: 2,
        source: "local".to_string(),
        elements: vec![e],
        app_state: AppState {
            view_background_color: "#fff".to_string(),
        },
    }
    .draw(fx(0));
    match &plans[0] {
        ElementPlan::Simple(op) => match &op.shape {
            ShapeKind::Path { cmds } => {
                // min(40, 80) * 0.25 = 10.
                assert_eq!(cmds[0], PathCmd::MoveTo(pt(10, 0)));
                assert_eq!(cmds[1], PathCmd::LineTo(pt(30, 0)));
                assert_eq!(cmds[2], PathCmd::QuadTo(pt(40, 0), pt(40, 10)));
                assert_eq!(cmds.len(), 9);
            }
            other => panic!("unexpected shape {:?}", other),
        },
        other => panic!("unexpected plan {:?}", other),
    }
}

#[test]
fn diamond_points_follow_the_apex_formula() {
    let e = sample_element(ElementType::Diamond, 0, 0, 10, 6);
    let (top_x, top_y, right_x, right_y, bottom_x, bottom_y, left_x, left_y) =
        excalidraw::draw::diamond::get_diamond_points(&e);
    assert_eq!((top_x, top_y), (fx(6), fx(0)));
    assert_eq!((right_x, right_y), (fx(10), fx(4)));
    assert_eq!((bottom_x, bottom_y), (fx(6), fx(6)));
    assert_eq!((left_x, left_y), (fx(0), fx(4)));
}

#[test]
fn line_without_points_degrades_to_an_origin_pair() {
    let e = sample_element(ElementType::Line, 0, 0, 10, 10);
    let config = DrawConfig { offset_x: fx(0), offset_y: fx(0) };
    let plan = e.draw(&config);
    match plan {
        ElementPlan::Simple(op) => match op.shape {
            ShapeKind::LinearPath { points, close } => {
                assert_eq!(points, vec![pt(0, 0), pt(0, 0)]);
                assert!(!close);
            }
            other => panic!("unexpected shape {:?}", other),
        },
        other => panic!("unexpected plan {:?}", other),
    }
}

#[test]
fn distance_is_the_euclidean_length() {
    assert_eq!(distance2d(&pt(0, 0), &pt(3, 4)), fx(5));
    // sqrt(2) in raw units, rounded down.
    assert_eq!(distance2d(&pt(0, 0), &pt(1, 1)), Fx::from_raw(92681));
}

#[test]
fn path_loop_needs_three_points_and_equal_ends() {
    assert!(is_path_loop(&vec![pt(0, 0), pt(5, 0), pt(0, 0)]));
    assert!(!is_path_loop(&vec![pt(0, 0), pt(5, 0), pt(1, 0)]));
    assert!(!is_path_loop(&vec![pt(0, 0), pt(0, 0)]));
}

#[test]
fn rotation_by_a_quarter_turn_swaps_axes() {
    let r = rotate(pt(100, 0), pt(0, 0), Fx::from_raw(0), Fx::from_raw(65536));
    assert_eq!(r, pt(0, 100));
}

#[test]
fn bezier_evaluation_at_the_ends_returns_the_anchors() {
    let p0 = pt(1, 2);
    let p1 = pt(3, 4);
    let p2 = pt(5, 6);
    let p3 = pt(7, 8);
    // At t = 0 every weight but the one on the last anchor vanishes.
    let (x, y) = equation(Fx::from_raw(0), &p0, &p1, &p2, &p3);
    assert_eq!((x, y), (fx(7), fx(8)));
    let (x, y) = equation(Fx::from_raw(65536), &p0, &p1, &p2, &p3);
    assert_eq!((x, y), (fx(1), fx(2)));
}

#[test]
fn marker_base_point_moves_toward_the_tangent() {
    let base = get_arrow_point(pt(100, 0), pt(0, 0), fx(200), fx(30));
    assert_eq!(base, pt(70, 0));
    // Short shafts halve the travel: min(30, 20 / 2) = 10.
    let near = get_arrow_point(pt(100, 0), pt(0, 0), fx(20), fx(30));
    assert_eq!(near, pt(90, 0));
    // A degenerate pair stays put.
    let degenerate = get_arrow_point(pt(5, 5), pt(5, 5), fx(0), fx(30));
    assert_eq!(degenerate, pt(5, 5));
}

#[test]
fn arrow_markers_come_out_per_end() {
    let mut e = sample_element(ElementType::Arrow, 0, 0, 100, 0);
    e.points = Some(vec![pt(0, 0), pt(100, 0)]);
    e.start_arrowhead = Some(Arrowhead::Dot);
    e.end_arrowhead = Some(Arrowhead::Arrow);
    let config = DrawConfig { offset_x: fx(0), offset_y: fx(0) };
    let cmds = vec![
        PathCmd::MoveTo(pt(0, 0)),
        PathCmd::CurveTo(pt(25, 0), pt(75, 0), pt(100, 0)),
    ];
    let ops = marker_ops(&e, &config, &cmds);
    // One circle for the dot, two wing segments for the arrow.
    assert_eq!(ops.len(), 3);
    match &ops[0].shape {
        ShapeKind::Circle { .. } => {}
        other => panic!("unexpected start marker {:?}", other),
    }
    assert_eq!(ops[0].options.fill_style, FillStyle::Solid);
    assert_eq!(
        ops[0].options.fill,
        Rgba { red: 255, green: 0, blue: 0, alpha: 255 }
    );
    match &ops[1].shape {
        ShapeKind::LinearPath { points, close } => {
            assert_eq!(points.len(), 2);
            assert!(*close);
        }
        other => panic!("unexpected end marker {:?}", other),
    }
    match &ops[2].shape {
        ShapeKind::LinearPath { .. } => {}
        other => panic!("unexpected end marker {:?}", other),
    }
}

#[test]
fn end_arrow_wings_have_exact_coordinates() {
    let mut e = sample_element(ElementType::Arrow, 0, 0, 100, 0);
    e.points = Some(vec![pt(0, 0), pt(100, 0)]);
    e.end_arrowhead = Some(Arrowhead::Arrow);
    let config = DrawConfig { offset_x: fx(0), offset_y: fx(0) };
    let cmds = vec![
        PathCmd::MoveTo(pt(0, 0)),
        PathCmd::CurveTo(pt(25, 0), pt(75, 0), pt(100, 0)),
    ];
    let ops = marker_ops(&e, &config, &cmds);
    assert_eq!(ops.len(), 2);
    let wing1 = Point { x: Fx::from_raw(4706080), y: Fx::from_raw(672450) };
    let wing2 = Point { x: Fx::from_raw(4706080), y: Fx::from_raw(-672450) };
    let tip = pt(100, 0);
    match &ops[0].shape {
        ShapeKind::LinearPath { points, close } => {
            assert_eq!(points, &vec![wing1, tip]);
            assert!(*close);
        }
        other => panic!("unexpected marker {:?}", other),
    }
    match &ops[1].shape {
        ShapeKind::LinearPath { points, close } => {
            assert_eq!(points, &vec![wing2, tip]);
            assert!(*close);
        }
        other => panic!("unexpected marker {:?}", other),
    }
}

#[test]
fn bar_marker_is_a_perpendicular_pair() {
    let mut e = sample_element(ElementType::Arrow, 0, 0, 100, 0);
    e.points = Some(vec![pt(0, 0), pt(100, 0)]);
    let cmds = vec![
        PathCmd::MoveTo(pt(0, 0)),
        PathCmd::CurveTo(pt(25, 0), pt(75, 0), pt(100, 0)),
    ];
    let (tip, wing1, wing2) = get_bar_arrowhead_point(&cmds, &e, false);
    assert_eq!(tip, pt(100, 0));
    assert_eq!(wing1, pt(100, 15));
    assert_eq!(wing2, pt(100, -15));
}

#[test]
fn dot_marker_radius_adds_the_stroke_width() {
    let mut e = sample_element(ElementType::Arrow, 0, 0, 100, 0);
    e.points = Some(vec![pt(0, 0), pt(100, 0)]);
    let cmds = vec![
        PathCmd::MoveTo(pt(0, 0)),
        PathCmd::CurveTo(pt(25, 0), pt(75, 0), pt(100, 0)),
    ];
    let (center, radius) = get_dot_arrowhead_point(&cmds, &e, false);
    assert_eq!(center, pt(100, 0));
    // 15 units of travel plus the stroke width of 2.
    assert_eq!(radius, fx(17));
}

#[test]
fn short_point_lists_degrade_to_the_origin_pair() {
    let mut e = sample_element(ElementType::Line, 0, 0, 10, 10);
    e.points = Some(vec![pt(30, 40)]);
    let config = DrawConfig { offset_x: fx(0), offset_y: fx(0) };
    match e.draw(&config) {
        ElementPlan::Simple(op) => match op.shape {
            ShapeKind::LinearPath { points, .. } => {
                assert_eq!(points, vec![pt(0, 0), pt(0, 0)]);
            }
            other => panic!("unexpected shape {:?}", other),
        },
        other => panic!("unexpected plan {:?}", other),
    }
    // Markers on a degenerate arrow collapse onto the path end without any
    // precondition on the declared list.
    let mut a = sample_element(ElementType::Arrow, 0, 0, 0, 0);
    a.points = Some(vec![]);
    a.end_arrowhead = Some(Arrowhead::Arrow);
    let cmds = vec![
        PathCmd::MoveTo(pt(0, 0)),
        PathCmd::CurveTo(pt(0, 0), pt(0, 0), pt(0, 0)),
    ];
    let ops = marker_ops(&a, &config, &cmds);
    assert_eq!(ops.len(), 2);
}
