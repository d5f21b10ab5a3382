//! Shape bounds and the conversion of outlines into drawing paths.

use ruffle_core::shape_utils::converter::{style_indices_in_range, DrawCommand, DrawPath, ShapeConverter};
use ruffle_core::shape_utils::{
    calculate_shape_bounds, glyph_shape, pen_positions_fit, Rectangle, Shape, ShapeRecord, ShapeStyles, StyleChange,
};

fn style_change(
    move_to: Option<(i32, i32)>,
    fill_style_1: Option<u32>,
    line_style: Option<u32>,
) -> ShapeRecord<&'static str, &'static str> {
    ShapeRecord::StyleChange(StyleChange {
        move_to,
        fill_style_0: None,
        fill_style_1,
        line_style,
        new_styles: None,
    })
}

fn edge(delta_x: i32, delta_y: i32) -> ShapeRecord<&'static str, &'static str> {
    ShapeRecord::StraightEdge { delta_x, delta_y }
}

fn shape(records: Vec<ShapeRecord<&'static str, &'static str>>) -> Shape<&'static str, &'static str> {
    Shape {
        version: 1,
        id: 1,
        shape_bounds: Rectangle::default(),
        edge_bounds: Rectangle::default(),
        styles: ShapeStyles { fill_styles: vec!["red", "blue"], line_styles: vec!["thin"] },
        shape: records,
    }
}

fn square() -> Vec<ShapeRecord<&'static str, &'static str>> {
    vec![style_change(Some((0, 0)), Some(1), None), edge(100, 0), edge(0, 100), edge(-100, 0), edge(0, -100)]
}

#[test]
fn bounds_of_a_square() {
    let r = calculate_shape_bounds(&square());
    assert_eq!(r, Rectangle { x_min: 0, y_min: 0, x_max: 100, y_max: 100 });
}

#[test]
fn bounds_include_curve_control_points() {
    let records: Vec<ShapeRecord<&str, &str>> = vec![
        style_change(Some((10, 10)), None, None),
        ShapeRecord::CurvedEdge { control_delta_x: 5, control_delta_y: -20, anchor_delta_x: 5, anchor_delta_y: 20 },
    ];
    let r = calculate_shape_bounds(&records);
    assert_eq!(r, Rectangle { x_min: 10, y_min: -10, x_max: 20, y_max: 10 });
}

#[test]
fn bounds_of_an_empty_outline() {
    let records: Vec<ShapeRecord<&str, &str>> = vec![];
    assert_eq!(calculate_shape_bounds(&records), Rectangle { x_min: 0, y_min: 0, x_max: 0, y_max: 0 });
}

#[test]
fn square_becomes_one_fill() {
    let s = shape(square());
    let paths = ShapeConverter::from_shape(&s).into_commands();
    assert_eq!(paths.len(), 1);
    match &paths[0] {
        DrawPath::Fill { style, commands } => {
            assert_eq!(**style, "red");
            assert_eq!(
                commands,
                &vec![
                    DrawCommand::MoveTo { x: 0, y: 0 },
                    DrawCommand::LineTo { x: 100, y: 0 },
                    DrawCommand::LineTo { x: 100, y: 100 },
                    DrawCommand::LineTo { x: 0, y: 100 },
                    DrawCommand::LineTo { x: 0, y: 0 },
                ]
            );
        },
        other => panic!("expected a fill, got {:?}", other),
    }
}

#[test]
fn segments_that_meet_are_linked() {
    let s = shape(vec![
        style_change(Some((0, 0)), Some(2), None),
        edge(100, 0),
        style_change(Some((100, 0)), None, None),
        edge(0, 100),
    ]);
    let paths = ShapeConverter::from_shape(&s).into_commands();
    assert_eq!(paths.len(), 1);
    match &paths[0] {
        DrawPath::Fill { style, commands } => {
            assert_eq!(**style, "blue");
            assert_eq!(
                commands,
                &vec![
                    DrawCommand::MoveTo { x: 0, y: 0 },
                    DrawCommand::LineTo { x: 100, y: 0 },
                    DrawCommand::LineTo { x: 100, y: 0 },
                    DrawCommand::LineTo { x: 100, y: 100 },
                ]
            );
        },
        other => panic!("expected a fill, got {:?}", other),
    }
}

#[test]
fn curved_stroke_after_fills() {
    let s = shape(vec![
        style_change(None, Some(1), Some(1)),
        ShapeRecord::CurvedEdge { control_delta_x: 10, control_delta_y: 0, anchor_delta_x: 10, anchor_delta_y: 10 },
    ]);
    let paths = ShapeConverter::from_shape(&s).into_commands();
    assert_eq!(paths.len(), 2);
    assert!(matches!(&paths[0], DrawPath::Fill { .. }));
    match &paths[1] {
        DrawPath::Stroke { style, commands } => {
            assert_eq!(**style, "thin");
            assert_eq!(
                commands,
                &vec![DrawCommand::MoveTo { x: 0, y: 0 }, DrawCommand::CurveTo { x1: 10, y1: 0, x2: 20, y2: 10 }]
            );
        },
        other => panic!("expected a stroke, got {:?}", other),
    }
}

#[test]
fn fill_without_edges_is_an_empty_fill() {
    let s = shape(vec![style_change(Some((5, 5)), Some(1), None)]);
    let paths = ShapeConverter::from_shape(&s).into_commands();
    assert_eq!(paths.len(), 1);
    match &paths[0] {
        DrawPath::Fill { commands, .. } => assert!(commands.is_empty()),
        other => panic!("expected a fill, got {:?}", other),
    }
}

#[test]
fn fill_style_0_is_reversed() {
    let s = shape(vec![
        ShapeRecord::StyleChange(StyleChange {
            move_to: Some((0, 0)),
            fill_style_0: Some(1),
            fill_style_1: None,
            line_style: None,
            new_styles: None,
        }),
        edge(10, 0),
        edge(0, 10),
    ]);
    let paths = ShapeConverter::from_shape(&s).into_commands();
    match &paths[0] {
        DrawPath::Fill { commands, .. } => assert_eq!(
            commands,
            &vec![
                DrawCommand::MoveTo { x: 10, y: 10 },
                DrawCommand::LineTo { x: 10, y: 0 },
                DrawCommand::LineTo { x: 0, y: 0 },
            ]
        ),
        other => panic!("expected a fill, got {:?}", other),
    }
}

#[test]
fn new_styles_start_a_layer() {
    let s = shape(vec![
        style_change(Some((0, 0)), Some(1), None),
        edge(10, 0),
        ShapeRecord::StyleChange(StyleChange {
            move_to: None,
            fill_style_0: None,
            fill_style_1: Some(1),
            line_style: None,
            new_styles: Some(ShapeStyles { fill_styles: vec!["green"], line_styles: vec![] }),
        }),
        edge(0, 10),
    ]);
    let paths = ShapeConverter::from_shape(&s).into_commands();
    assert_eq!(paths.len(), 2);
    match (&paths[0], &paths[1]) {
        (DrawPath::Fill { style: first, .. }, DrawPath::Fill { style: second, commands }) => {
            assert_eq!(**first, "red");
            assert_eq!(**second, "green");
            assert_eq!(commands, &vec![DrawCommand::MoveTo { x: 10, y: 0 }, DrawCommand::LineTo { x: 10, y: 10 }]);
        },
        other => panic!("expected two fills, got {:?}", other),
    }
}

#[test]
fn pen_positions_must_fit_in_twips() {
    assert!(pen_positions_fit(&square()));
    let far: Vec<ShapeRecord<&str, &str>> = vec![style_change(Some((i32::MAX - 1, 0)), None, None), edge(5, 0)];
    assert!(!pen_positions_fit(&far));
}

#[test]
fn style_indices_are_checked_against_the_list_in_effect() {
    assert!(style_indices_in_range(&shape(square())));
    assert!(!style_indices_in_range(&shape(vec![style_change(None, Some(3), None)])));
    assert!(!style_indices_in_range(&shape(vec![style_change(None, None, Some(2))])));
}

#[test]
fn glyphs_are_filled_within_their_bounds() {
    let g: Shape<&str, &str> = glyph_shape(square(), None, "white");
    assert_eq!(g.shape_bounds, Rectangle { x_min: 0, y_min: 0, x_max: 100, y_max: 100 });
    assert_eq!(g.styles.fill_styles, vec!["white"]);
    let given = Rectangle { x_min: -1, y_min: -2, x_max: 3, y_max: 4 };
    let h: Shape<&str, &str> = glyph_shape(square(), Some(given), "white");
    assert_eq!(h.edge_bounds, given);
}
