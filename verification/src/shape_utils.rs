//! Shape outlines: their records, their bounds, and the shape of a font
//! glyph. The conversion into drawing paths is in `converter`.

use vstd::prelude::*;

pub mod converter;

verus! {

/// The fill and line styles of a shape, or of one of its drawing layers.
#[derive(Clone, Debug, PartialEq, Eq)]
pub struct ShapeStyles<F, L> {
    pub fill_styles: Vec<F>,
    pub line_styles: Vec<L>,
}

/// A style change record: a pen move, a new style list, and a change of the
/// active styles. A style index refers to the current list, counted from 1;
/// 0 clears the style.
#[derive(Clone, Debug, PartialEq, Eq)]
pub struct StyleChange<F, L> {
    /// Move the pen to these absolute coordinates, in twips.
    pub move_to: Option<(i32, i32)>,
    pub fill_style_0: Option<u32>,
    pub fill_style_1: Option<u32>,
    pub line_style: Option<u32>,
    /// A new style list; it also starts a new drawing layer.
    pub new_styles: Option<ShapeStyles<F, L>>,
}

/// One record of a shape outline; coordinates and deltas are in twips.
#[derive(Clone, Debug, PartialEq, Eq)]
pub enum ShapeRecord<F, L> {
    StyleChange(StyleChange<F, L>),
    StraightEdge { delta_x: i32, delta_y: i32 },
    CurvedEdge { control_delta_x: i32, control_delta_y: i32, anchor_delta_x: i32, anchor_delta_y: i32 },
}

/// A shape: its bounds, its initial styles and its outline records.
#[derive(Clone, Debug, PartialEq, Eq)]
pub struct Shape<F, L> {
    pub version: u8,
    pub id: u16,
    pub shape_bounds: Rectangle,
    pub edge_bounds: Rectangle,
    pub styles: ShapeStyles<F, L>,
    pub shape: Vec<ShapeRecord<F, L>>,
}

/// A rectangle in twips.
#[derive(Clone, Copy, Debug, PartialEq, Eq, Structural, Default)]
pub struct Rectangle {
    pub x_min: i32,
    pub y_min: i32,
    pub x_max: i32,
    pub y_max: i32,
}

/// The points the pen reaches, in order, starting at `(x, y)`: move
/// targets, edge ends, and curve control points.
pub open spec fn pen_points<F, L>(records: Seq<ShapeRecord<F, L>>, x: int, y: int) -> Seq<(int, int)>
    decreases records.len(),
{
    if records.len() == 0 {
        Seq::empty()
    } else {
        let rest = records.skip(1);
        match records[0] {
            ShapeRecord::StyleChange(sc) => match sc.move_to {
                Some((mx, my)) => seq![(mx as int, my as int)] + pen_points(rest, mx as int, my as int),
                None => pen_points(rest, x, y),
            },
            ShapeRecord::StraightEdge { delta_x, delta_y } => {
                let (px, py) = (x + delta_x, y + delta_y);
                seq![(px, py)] + pen_points(rest, px, py)
            },
            ShapeRecord::CurvedEdge { control_delta_x, control_delta_y, anchor_delta_x, anchor_delta_y } => {
                let (cx, cy) = (x + control_delta_x, y + control_delta_y);
                let (ax, ay) = (cx + anchor_delta_x, cy + anchor_delta_y);
                seq![(cx, cy), (ax, ay)] + pen_points(rest, ax, ay)
            },
        }
    }
}

/// Every point fits in the twips range.
pub open spec fn points_fit(points: Seq<(int, int)>) -> bool {
    forall|i: int|
        0 <= i < points.len() ==> i32::MIN <= (#[trigger] points[i]).0 <= i32::MAX && i32::MIN <= points[i].1
            <= i32::MAX
}

/// `r` is the smallest rectangle holding all the points.
pub open spec fn is_bounding_box(r: Rectangle, points: Seq<(int, int)>) -> bool {
    &&& forall|i: int|
        0 <= i < points.len() ==> r.x_min <= (#[trigger] points[i]).0 <= r.x_max && r.y_min <= points[i].1
            <= r.y_max
    &&& exists|i: int| 0 <= i < points.len() && (#[trigger] points[i]).0 == r.x_min
    &&& exists|i: int| 0 <= i < points.len() && (#[trigger] points[i]).0 == r.x_max
    &&& exists|i: int| 0 <= i < points.len() && (#[trigger] points[i]).1 == r.y_min
    &&& exists|i: int| 0 <= i < points.len() && (#[trigger] points[i]).1 == r.y_max
}

/// The rectangle with all corners at the origin.
pub open spec fn empty_rectangle() -> Rectangle {
    Rectangle { x_min: 0, y_min: 0, x_max: 0, y_max: 0 }
}

/// The bounds state after visiting `points` from the sentinel state.
spec fn tracks(r: Rectangle, points: Seq<(int, int)>) -> bool {
    if points.len() == 0 {
        r == (Rectangle { x_min: i32::MAX, y_min: i32::MAX, x_max: i32::MIN, y_max: i32::MIN })
    } else {
        is_bounding_box(r, points)
    }
}

fn include_point(r: Rectangle, x: i32, y: i32, Ghost(points): Ghost<Seq<(int, int)>>) -> (out: Rectangle)
    requires
        tracks(r, points),
    ensures
        tracks(out, points.push((x as int, y as int))),
{
    let out = Rectangle {
        x_min: if x < r.x_min { x } else { r.x_min },
        x_max: if x > r.x_max { x } else { r.x_max },
        y_min: if y < r.y_min { y } else { r.y_min },
        y_max: if y > r.y_max { y } else { r.y_max },
    };
    proof {
        let np = points.push((x as int, y as int));
        let last = np.len() - 1;
        assert(np[last] == (x as int, y as int));
        if points.len() == 0 {
            assert(is_bounding_box(out, np));
        } else {
            assert forall|i: int| 0 <= i < np.len() implies out.x_min <= (#[trigger] np[i]).0 <= out.x_max
                && out.y_min <= np[i].1 <= out.y_max by {
                if i < points.len() {
                    assert(np[i] == points[i]);
                }
            }
            if x < r.x_min {
            } else {
                let i = choose|i: int| 0 <= i < points.len() && (#[trigger] points[i]).0 == r.x_min;
                assert(np[i] == points[i]);
            }
            if x > r.x_max {
            } else {
                let i = choose|i: int| 0 <= i < points.len() && (#[trigger] points[i]).0 == r.x_max;
                assert(np[i] == points[i]);
            }
            if y < r.y_min {
            } else {
                let i = choose|i: int| 0 <= i < points.len() && (#[trigger] points[i]).1 == r.y_min;
                assert(np[i] == points[i]);
            }
            if y > r.y_max {
            } else {
                let i = choose|i: int| 0 <= i < points.len() && (#[trigger] points[i]).1 == r.y_max;
                assert(np[i] == points[i]);
            }
        }
    }
    out
}

/// The bounds of a shape outline, as the pen traces it from the origin.
/// A shape that never places the pen has the empty rectangle at the
/// origin.
pub fn calculate_shape_bounds<F, L>(shape_records: &[ShapeRecord<F, L>]) -> (r: Rectangle)
    requires
        points_fit(pen_points(shape_records@, 0, 0)),
    ensures
        pen_points(shape_records@, 0, 0).len() == 0 ==> r == empty_rectangle(),
        pen_points(shape_records@, 0, 0).len() > 0 ==> is_bounding_box(r, pen_points(shape_records@, 0, 0)),
{
    let ghost all = pen_points(shape_records@, 0, 0);
    let mut bounds = Rectangle { x_min: i32::MAX, y_min: i32::MAX, x_max: i32::MIN, y_max: i32::MIN };
    let mut x: i32 = 0;
    let mut y: i32 = 0;
    let ghost mut visited: Seq<(int, int)> = Seq::empty();
    let mut i: usize = 0;
    proof {
        assert(shape_records@.skip(0) =~= shape_records@);
        assert(visited + all =~= all);
    }
    while i < shape_records.len()
        invariant
            i <= shape_records@.len(),
            all == pen_points(shape_records@, 0, 0),
            points_fit(all),
            all == visited + pen_points(shape_records@.skip(i as int), x as int, y as int),
            tracks(bounds, visited),
        decreases shape_records.len() - i,
    {
        let ghost rest = shape_records@.skip(i as int);
        proof {
            assert(rest[0] == shape_records@[i as int]);
            assert(rest.skip(1) =~= shape_records@.skip(i + 1));
        }
        match &shape_records[i] {
            ShapeRecord::StyleChange(sc) => {
                if let Some((mx, my)) = sc.move_to {
                    x = mx;
                    y = my;
                    bounds = include_point(bounds, x, y, Ghost(visited));
                    proof {
                        assert(visited.push((x as int, y as int)) + pen_points(shape_records@.skip(i + 1), x as int, y as int)
                            =~= visited + (seq![(x as int, y as int)] + pen_points(shape_records@.skip(i + 1), x as int, y as int)));
                        visited = visited.push((x as int, y as int));
                    }
                }
            },
            ShapeRecord::StraightEdge { delta_x, delta_y } => {
                let (delta_x, delta_y) = (*delta_x, *delta_y);
                proof {
                    let p = (x + delta_x, y + delta_y);
                    assert(all[visited.len() as int] == p);
                }
                x = x + delta_x;
                y = y + delta_y;
                bounds = include_point(bounds, x, y, Ghost(visited));
                proof {
                    assert(visited.push((x as int, y as int)) + pen_points(shape_records@.skip(i + 1), x as int, y as int)
                        =~= visited + (seq![(x as int, y as int)] + pen_points(shape_records@.skip(i + 1), x as int, y as int)));
                    visited = visited.push((x as int, y as int));
                }
            },
            ShapeRecord::CurvedEdge { control_delta_x, control_delta_y, anchor_delta_x, anchor_delta_y } => {
                let (control_delta_x, control_delta_y) = (*control_delta_x, *control_delta_y);
                let (anchor_delta_x, anchor_delta_y) = (*anchor_delta_x, *anchor_delta_y);
                proof {
                    let c = (x + control_delta_x, y + control_delta_y);
                    let a = (c.0 + anchor_delta_x, c.1 + anchor_delta_y);
                    assert(all[visited.len() as int] == c);
                    assert(all[visited.len() as int + 1] == a);
                }
                x = x + control_delta_x;
                y = y + control_delta_y;
                bounds = include_point(bounds, x, y, Ghost(visited));
                let ghost c = (x as int, y as int);
                proof {
                    visited = visited.push(c);
                }
                x = x + anchor_delta_x;
                y = y + anchor_delta_y;
                bounds = include_point(bounds, x, y, Ghost(visited));
                proof {
                    let a = (x as int, y as int);
                    assert(visited.push(a) + pen_points(shape_records@.skip(i + 1), x as int, y as int)
                        =~= visited.drop_last() + (seq![c, a] + pen_points(shape_records@.skip(i + 1), x as int, y as int)));
                    visited = visited.push(a);
                }
            },
        }
        i = i + 1;
    }
    proof {
        assert(shape_records@.skip(i as int) =~= Seq::<ShapeRecord<F, L>>::empty());
        assert(visited =~= all);
    }
    if bounds.x_max < bounds.x_min || bounds.y_max < bounds.y_min {
        bounds = Rectangle { x_min: 0, y_min: 0, x_max: 0, y_max: 0 };
    }
    bounds
}

/// Whether every pen position of an outline fits in twips, as the bounds
/// and the conversion of a shape need.
pub fn pen_positions_fit<F, L>(shape_records: &[ShapeRecord<F, L>]) -> (r: bool)
    ensures
        r == points_fit(pen_points(shape_records@, 0, 0)),
{
    let ghost all = pen_points(shape_records@, 0, 0);
    let mut x: i64 = 0;
    let mut y: i64 = 0;
    let ghost mut visited: Seq<(int, int)> = Seq::empty();
    let mut i: usize = 0;
    proof {
        assert(shape_records@.skip(0) =~= shape_records@);
        assert(visited + all =~= all);
    }
    while i < shape_records.len()
        invariant
            i <= shape_records@.len(),
            all == pen_points(shape_records@, 0, 0),
            all == visited + pen_points(shape_records@.skip(i as int), x as int, y as int),
            points_fit(visited),
            i32::MIN <= x <= i32::MAX,
            i32::MIN <= y <= i32::MAX,
        decreases shape_records.len() - i,
    {
        let ghost rest = shape_records@.skip(i as int);
        let ghost tail = pen_points(shape_records@.skip(i + 1), x as int, y as int);
        proof {
            assert(rest[0] == shape_records@[i as int]);
            assert(rest.skip(1) =~= shape_records@.skip(i + 1));
        }
        match &shape_records[i] {
            ShapeRecord::StyleChange(sc) => {
                if let Some((mx, my)) = sc.move_to {
                    x = mx as i64;
                    y = my as i64;
                    proof {
                        let p = (x as int, y as int);
                        assert(visited.push(p) + pen_points(shape_records@.skip(i + 1), x as int, y as int) =~= visited
                            + (seq![p] + pen_points(shape_records@.skip(i + 1), x as int, y as int)));
                        visited = visited.push(p);
                    }
                }
            },
            ShapeRecord::StraightEdge { delta_x, delta_y } => {
                x = x + *delta_x as i64;
                y = y + *delta_y as i64;
                proof {
                    let p = (x as int, y as int);
                    assert(visited.push(p) + pen_points(shape_records@.skip(i + 1), x as int, y as int) =~= visited
                        + (seq![p] + pen_points(shape_records@.skip(i + 1), x as int, y as int)));
                    visited = visited.push(p);
                }
                if x < i32::MIN as i64 || x > i32::MAX as i64 || y < i32::MIN as i64 || y > i32::MAX as i64 {
                    proof {
                        assert(all[visited.len() - 1] == (x as int, y as int));
                    }
                    return false;
                }
            },
            ShapeRecord::CurvedEdge { control_delta_x, control_delta_y, anchor_delta_x, anchor_delta_y } => {
                x = x + *control_delta_x as i64;
                y = y + *control_delta_y as i64;
                let ghost c = (x as int, y as int);
                if x < i32::MIN as i64 || x > i32::MAX as i64 || y < i32::MIN as i64 || y > i32::MAX as i64 {
                    proof {
                        assert(all[visited.len() as int] == c);
                    }
                    return false;
                }
                let ghost before = visited;
                proof {
                    visited = visited.push(c);
                }
                x = x + *anchor_delta_x as i64;
                y = y + *anchor_delta_y as i64;
                proof {
                    let a = (x as int, y as int);
                    assert(visited.push(a) + pen_points(shape_records@.skip(i + 1), x as int, y as int) =~= before
                        + (seq![c, a] + pen_points(shape_records@.skip(i + 1), x as int, y as int)));
                    visited = visited.push(a);
                }
                if x < i32::MIN as i64 || x > i32::MAX as i64 || y < i32::MIN as i64 || y > i32::MAX as i64 {
                    proof {
                        assert(all[visited.len() - 1] == (x as int, y as int));
                    }
                    return false;
                }
            },
        }
        i = i + 1;
    }
    proof {
        assert(shape_records@.skip(i as int) =~= Seq::<ShapeRecord<F, L>>::empty());
        assert(visited =~= all);
    }
    true
}

/// The shape that renders a font glyph: its outline, filled with the one
/// fill style given, within the glyph's bounds or, where it has none, the
/// bounds of its outline.
pub fn glyph_shape<F, L>(shape_records: Vec<ShapeRecord<F, L>>, bounds: Option<Rectangle>, fill: F) -> (r: Shape<F, L>)
    requires
        bounds is None ==> points_fit(pen_points(shape_records@, 0, 0)),
    ensures
        r.version == 2,
        r.id == 0,
        r.shape@ == shape_records@,
        r.styles.fill_styles@ == seq![fill],
        r.styles.line_styles@.len() == 0,
        r.edge_bounds == r.shape_bounds,
        bounds matches Some(b) ==> r.shape_bounds == b,
        bounds is None && pen_points(shape_records@, 0, 0).len() == 0 ==> r.shape_bounds == empty_rectangle(),
        bounds is None && pen_points(shape_records@, 0, 0).len() > 0 ==> is_bounding_box(
            r.shape_bounds,
            pen_points(shape_records@, 0, 0),
        ),
{
    let bounds = match bounds {
        Some(b) => b,
        None => calculate_shape_bounds(shape_records.as_slice()),
    };
    let mut fill_styles: Vec<F> = Vec::new();
    fill_styles.push(fill);
    Shape {
        version: 2,
        id: 0,
        shape_bounds: bounds,
        edge_bounds: bounds,
        styles: ShapeStyles { fill_styles, line_styles: Vec::new() },
        shape: shape_records,
    }
}

} // verus!
