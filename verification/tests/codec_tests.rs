use excalidraw::codec::{decode_points, decode_roundness, encode_point, ParseError};
use excalidraw::element::{
    Arrowhead, Element, ElementType, FillStyle, Roundness, RoundnessType, StrokeStyle,
};
use excalidraw::fixed::Fx;
use excalidraw::json::parse::parse_json;
use excalidraw::json::print::print_json;
use excalidraw::json::Json;
use excalidraw::point::Point;
use excalidraw::{AppState, Excalidraw};

fn fx(units: i32) -> Fx {
    Fx::from_int(units)
}

fn parse(text: &str) -> Json {
    parse_json(&text.as_bytes().to_vec()).expect("well-formed JSON")
}

fn field<'a>(j: &'a Json, name: &str) -> &'a Json {
    match j {
        Json::Obj(entries) => {
            for (key, value) in entries {
                if key == name {
                    return value;
                }
            }
            panic!("missing field {}", name);
        }
        _ => panic!("not an object"),
    }
}

fn base_element(id: &str, kind: ElementType) -> Element {
    Element {
        id: id.to_string(),
        element_type: kind,
        x: fx(0),
        y: fx(0),
        width: fx(10),
        height: fx(10),
        angle: 0,
        stroke_color: "#000000".to_string(),
        background_color: "transparent".to_string(),
        fill_style: FillStyle::Hachure,
        stroke_width: fx(1),
        stroke_style: StrokeStyle::Solid,
        roughness: fx(1),
        opacity: 100,
        seed: 1968410350,
        version: 141,
        version_nonce: 361174001,
        is_deleted: false,
        updated: 1639303764421,
        locked: false,
        roundness: None,
        points: None,
        start_arrowhead: None,
        end_arrowhead: None,
    }
}

#[test]
fn test_roundness_deserialization() {
    let json_str = "{\n            \"type\": 3\n        }";
    let parsed = parse(json_str);
    let result = decode_roundness(&parsed);
    match result {
        Ok(roundness) => {
            assert_eq!(roundness.type_field, RoundnessType::AdaptiveRadius);
            assert_eq!(roundness.value, None);
        }
        Err(e) => {
            panic!("Deserialization error: {:?}", e);
        }
    }
}

#[test]
fn test_roundness_tag_one_is_legacy() {
    let parsed = parse("{\"type\": 1}");
    let roundness = decode_roundness(&parsed).unwrap();
    assert_eq!(roundness.type_field, RoundnessType::Legacy);
}

#[test]
fn test_roundness_tag_five_fails() {
    let parsed = parse("{\"type\": 5}");
    assert_eq!(decode_roundness(&parsed), Err(ParseError::Schema));
}

#[test]
fn test_deserialization() {
    let json_data = r#"
        {
            "points": [
                [0, 0],
                [217.98046875, 225.5859375]
            ]
        }
        "#;
    let parsed = parse(json_data);
    let points = decode_points(field(&parsed, "points")).unwrap();
    assert_eq!(points[0], Point { x: fx(0), y: fx(0) });
    assert_eq!(
        points[1],
        Point {
            x: Fx::from_raw(14285568),
            y: Fx::from_raw(14784000),
        }
    );
}

#[test]
fn test_serialization() {
    let points = vec![
        Point { x: fx(0), y: fx(0) },
        Point {
            x: Fx::from_raw(14285568),
            y: Fx::from_raw(14784000),
        },
    ];
    let mut items = Vec::new();
    for p in &points {
        items.push(encode_point(p));
    }
    let container = Json::Obj(vec![("points".to_string(), Json::Arr(items))]);
    let mut out = Vec::new();
    print_json(&container, &mut out);
    let serialized = String::from_utf8(out).unwrap();
    let expected_json = r#"{"points":[[0.0,0.0],[217.98046875,225.5859375]]}"#;
    assert_eq!(serialized, expected_json);
}

#[test]
fn document_round_trip_keeps_every_field() {
    let mut line = base_element("line-1", ElementType::Line);
    line.points = Some(vec![Point { x: fx(0), y: fx(0) }, Point { x: fx(30), y: fx(40) }]);
    line.roundness = Some(Roundness {
        type_field: RoundnessType::ProportionalRadius,
        value: None,
    });
    let mut arrow = base_element("arrow-1", ElementType::Arrow);
    arrow.points = Some(vec![Point { x: fx(0), y: fx(0) }, Point { x: fx(100), y: fx(0) }]);
    arrow.start_arrowhead = Some(Arrowhead::Dot);
    arrow.end_arrowhead = Some(Arrowhead::Arrow);
    arrow.stroke_style = StrokeStyle::Dashed;
    arrow.opacity = 60;
    let mut rect = base_element("rect-1", ElementType::Rectangle);
    rect.x = Fx::from_raw(-14285568);
    rect.roundness = Some(Roundness {
        type_field: RoundnessType::AdaptiveRadius,
        value: Some(fx(32)),
    });
    rect.fill_style = FillStyle::CrossHatch;
    rect.background_color = "#FED76622".to_string();
    let doc = Excalidraw {
        type_field: "excalidraw".to_string(),
        version: 2,
        source: "local".to_string(),
        elements: vec![line, arrow, rect],
        app_state: AppState {
            view_background_color: "#FFFFFF".to_string(),
        },
    };
    let text = doc.to_json().unwrap();
    let back = Excalidraw::from_json(&text).unwrap();
    assert_eq!(back, doc);
}

#[test]
fn from_json_reads_a_plain_document() {
    let text = r##"{
        "type": "excalidraw",
        "version": 2,
        "source": "local",
        "elements": [
            {
                "id": "a",
                "type": "rectangle",
                "x": 0,
                "y": -12.5,
                "width": 100,
                "height": 50,
                "angle": 0,
                "strokeColor": "#1e1e1e",
                "backgroundColor": "transparent",
                "fillStyle": "solid",
                "strokeWidth": 2,
                "strokeStyle": "solid",
                "roughness": 1,
                "opacity": 100,
                "seed": 42,
                "version": 5,
                "versionNonce": 7,
                "isDeleted": false,
                "updated": 1639303764421,
                "locked": false,
                "roundness": null,
                "extraUnknownField": [1, 2, {"deep": true}]
            }
        ],
        "appState": { "viewBackgroundColor": "#FFFFFF" }
    }"##;
    let doc = Excalidraw::from_json(text).unwrap();
    assert_eq!(doc.elements.len(), 1);
    let e = &doc.elements[0];
    assert_eq!(e.element_type, ElementType::Rectangle);
    assert_eq!(e.y, Fx::from_raw(-819200));
    assert_eq!(e.width, fx(100));
    assert_eq!(e.opacity, 100);
    assert_eq!(e.seed, 42);
    assert_eq!(e.roundness, None);
    assert_eq!(e.points, None);
}

#[test]
fn from_json_rejects_malformed_text() {
    assert_eq!(
        Excalidraw::from_json("{\"type\": \"excalidraw\"").unwrap_err(),
        ParseError::Syntax
    );
}

#[test]
fn from_json_rejects_schema_mismatch() {
    // A document whose elements hold a number where an object is owed.
    let text = r##"{"type":"x","version":1,"source":"s","elements":[5],"appState":{"viewBackgroundColor":"#fff"}}"##;
    assert_eq!(Excalidraw::from_json(text).unwrap_err(), ParseError::Schema);
}

#[test]
fn from_json_rejects_opacity_above_hundred() {
    let mut e = base_element("a", ElementType::Rectangle);
    e.opacity = 100;
    let doc = Excalidraw {
        type_field: "excalidraw".to_string(),
        version: 2,
        source: "local".to_string(),
        elements: vec![e],
        app_state: AppState {
            view_background_color: "#FFF".to_string(),
        },
    };
    let text = doc.to_json().unwrap().replace("\"opacity\":100", "\"opacity\":170");
    assert_eq!(Excalidraw::from_json(&text).unwrap_err(), ParseError::Schema);
}

#[test]
fn parse_rejects_exponent_notation() {
    assert_eq!(
        Excalidraw::from_json("[1e3]").unwrap_err(),
        ParseError::Syntax
    );
}

#[test]
fn negative_fraction_round_trips() {
    let value = Json::Fixed(Fx::from_raw(-229376));
    let mut out = Vec::new();
    print_json(&value, &mut out);
    assert_eq!(String::from_utf8(out).unwrap(), "-3.5");
    match parse("-3.5") {
        Json::Fixed(f) => assert_eq!(f, Fx::from_raw(-229376)),
        _ => panic!("expected a fixed-point number"),
    }
}

#[test]
fn string_escapes_round_trip() {
    let doc = Excalidraw {
        type_field: "with \"quotes\" and \\ and \n and \u{9}".to_string(),
        version: 0,
        source: "caf\u{e9} \u{1f600}".to_string(),
        elements: vec![],
        app_state: AppState {
            view_background_color: "#fff".to_string(),
        },
    };
    let text = doc.to_json().unwrap();
    assert!(text.is_ascii());
    let back = Excalidraw::from_json(&text).unwrap();
    assert_eq!(back, doc);
}
