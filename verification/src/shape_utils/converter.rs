//! Conversion of a shape's outline records into fill and stroke paths.
//!
//! Flash gives the edges of a shape as an "edge soup": the edges of one
//! fill may come in any order, and each edge borders up to two fills. The
//! converter follows the pen, collects the edges of each active style into
//! segments, and links segments whose ends meet. Fill paths are directed:
//! fill style 1 lies on the positive side of an edge and fill style 0 on
//! the negative side, so fill style 0 segments are reversed before they are
//! linked. Stroke paths are undirected.

use vstd::prelude::*;
use super::{Rectangle, Shape, ShapeRecord, ShapeStyles, StyleChange, pen_points, points_fit};

verus! {

/// A point of a path, in twips; the control point of a quadratic curve is marked.
#[derive(Clone, Copy, Debug, PartialEq, Eq, Structural)]
pub struct Point {
    pub x: i32,
    pub y: i32,
    pub is_bezier_control: bool,
}

/// A drawing command of a path, in twips.
#[derive(Clone, Copy, Debug, PartialEq, Eq, Structural)]
pub enum DrawCommand {
    MoveTo { x: i32, y: i32 },
    LineTo { x: i32, y: i32 },
    CurveTo { x1: i32, y1: i32, x2: i32, y2: i32 },
}

/// A path of the converter's output, with the style it is drawn in.
#[derive(Debug)]
pub enum DrawPath<'a, F, L> {
    Stroke { style: &'a L, commands: Vec<DrawCommand> },
    Fill { style: &'a F, commands: Vec<DrawCommand> },
}

/// The mathematical form of a [`DrawPath`].
pub ghost enum DrawPathView<F, L> {
    Stroke { style: L, commands: Seq<DrawCommand> },
    Fill { style: F, commands: Seq<DrawCommand> },
}

impl<'a, F, L> View for DrawPath<'a, F, L> {
    type V = DrawPathView<F, L>;

    open spec fn view(&self) -> DrawPathView<F, L> {
        match self {
            DrawPath::Stroke { style, commands } => DrawPathView::Stroke { style: **style, commands: commands@ },
            DrawPath::Fill { style, commands } => DrawPathView::Fill { style: **style, commands: commands@ },
        }
    }
}

/// Two points at the same position, whatever their kind.
pub open spec fn same_position(p: Point, q: Point) -> bool {
    p.x == q.x && p.y == q.y
}

/// The segment that links `points` and `other`, where the end of one meets
/// the start of the other: `other` comes first where its end meets the
/// start of `points`. An undirected segment may also be reversed to meet.
pub open spec fn joined(points: Seq<Point>, other: Seq<Point>, directed: bool) -> Option<Seq<Point>> {
    if same_position(other.last(), points[0]) {
        Some(other + points)
    } else if same_position(points.last(), other[0]) {
        Some(points + other)
    } else if !directed && same_position(points.last(), other.last()) {
        Some(points + other.reverse())
    } else if !directed && same_position(points[0], other[0]) {
        Some(other.reverse() + points)
    } else {
        None
    }
}

/// The first index from `from` of a segment that `seg` links to, or the
/// number of segments where there is none.
pub open spec fn first_joinable(segments: Seq<Seq<Point>>, seg: Seq<Point>, directed: bool, from: int) -> int
    decreases segments.len() - from,
{
    if from < 0 || from >= segments.len() {
        segments.len() as int
    } else if joined(segments[from], seg, directed) is Some {
        from
    } else {
        first_joinable(segments, seg, directed, from + 1)
    }
}

/// The segments after `seg` is added: it is linked to the first segment
/// it meets, which is taken out (the last segment takes its place), and
/// the result is added again; a segment that meets none is appended. A
/// segment of a single point adds nothing.
pub open spec fn merge_segments(segments: Seq<Seq<Point>>, seg: Seq<Point>, directed: bool) -> Seq<Seq<Point>>
    decreases segments.len(),
{
    if seg.len() <= 1 {
        segments
    } else {
        let i = first_joinable(segments, seg, directed, 0);
        if 0 <= i < segments.len() {
            merge_segments(
                segments.update(i, segments.last()).drop_last(),
                joined(segments[i], seg, directed).unwrap(),
                directed,
            )
        } else {
            segments.push(seg)
        }
    }
}

/// The index of the first paths entry from `from` for a style, or the
/// number of entries.
pub open spec fn path_index(paths: Seq<(u32, Seq<Seq<Point>>)>, style_id: u32, from: int) -> int
    decreases paths.len() - from,
{
    if from < 0 || from >= paths.len() {
        paths.len() as int
    } else if paths[from].0 == style_id {
        from
    } else {
        path_index(paths, style_id, from + 1)
    }
}

/// The paths after `seg` is merged into the entry of its style; a style
/// without an entry gets one, even for a segment that adds nothing.
pub open spec fn pending_merged(
    paths: Seq<(u32, Seq<Seq<Point>>)>,
    style_id: u32,
    seg: Seq<Point>,
    directed: bool,
) -> Seq<(u32, Seq<Seq<Point>>)> {
    let j = path_index(paths, style_id, 0);
    if j < paths.len() {
        paths.update(j, (style_id, merge_segments(paths[j].1, seg, directed)))
    } else {
        paths.push((style_id, merge_segments(Seq::empty(), seg, directed)))
    }
}

/// The drawing commands of the points after a segment's first point: a
/// control point and the point after it make a curve, any other point a line.
pub open spec fn edge_commands(points: Seq<Point>) -> Seq<DrawCommand>
    decreases points.len(),
{
    if points.len() == 0 {
        Seq::empty()
    } else if points[0].is_bezier_control && points.len() >= 2 {
        seq![DrawCommand::CurveTo { x1: points[0].x, y1: points[0].y, x2: points[1].x, y2: points[1].y }]
            + edge_commands(points.skip(2))
    } else if points[0].is_bezier_control {
        Seq::empty()
    } else {
        seq![DrawCommand::LineTo { x: points[0].x, y: points[0].y }] + edge_commands(points.skip(1))
    }
}

/// The drawing commands of a segment: a move to its first point, then its edges.
pub open spec fn segment_commands(points: Seq<Point>) -> Seq<DrawCommand> {
    seq![DrawCommand::MoveTo { x: points[0].x, y: points[0].y }] + edge_commands(points.skip(1))
}

/// The drawing commands of a path's segments, skipping those of a single point.
pub open spec fn path_commands(segments: Seq<Seq<Point>>) -> Seq<DrawCommand>
    decreases segments.len(),
{
    if segments.len() == 0 {
        Seq::empty()
    } else {
        (if segments[0].len() > 1 {
            segment_commands(segments[0])
        } else {
            Seq::empty()
        }) + path_commands(segments.skip(1))
    }
}

/// One fill path for each pending fill style, in the style it names.
pub open spec fn fill_draws<F, L>(paths: Seq<(u32, Seq<Seq<Point>>)>, styles: Seq<F>) -> Seq<DrawPathView<F, L>>
    decreases paths.len(),
{
    if paths.len() == 0 {
        Seq::empty()
    } else {
        seq![DrawPathView::Fill { style: styles[paths[0].0 - 1], commands: path_commands(paths[0].1) }]
            + fill_draws(paths.skip(1), styles)
    }
}

/// One stroke path for each pending line style that has segments.
pub open spec fn stroke_draws<F, L>(paths: Seq<(u32, Seq<Seq<Point>>)>, styles: Seq<L>) -> Seq<DrawPathView<F, L>>
    decreases paths.len(),
{
    if paths.len() == 0 {
        Seq::empty()
    } else {
        (if paths[0].1.len() > 0 {
            seq![DrawPathView::Stroke { style: styles[paths[0].0 - 1], commands: path_commands(paths[0].1) }]
        } else {
            Seq::empty()
        }) + stroke_draws(paths.skip(1), styles)
    }
}

/// Every style index names a style of a list of `count` styles.
pub open spec fn ids_in_range(paths: Seq<(u32, Seq<Seq<Point>>)>, count: nat) -> bool {
    forall|i: int| 0 <= i < paths.len() ==> 1 <= (#[trigger] paths[i]).0 <= count
}

/// The path of an active style: its style index and its points so far.
pub ghost struct ActivePathView {
    pub style_id: u32,
    pub points: Seq<Point>,
}

/// The state of a conversion.
pub ghost struct ConverterState<F, L> {
    /// The pen position.
    pub x: i32,
    pub y: i32,
    /// The style lists of the current layer.
    pub fill_styles: Seq<F>,
    pub line_styles: Seq<L>,
    /// The paths of the active styles.
    pub fill_style0: Option<ActivePathView>,
    pub fill_style1: Option<ActivePathView>,
    pub line_style: Option<ActivePathView>,
    /// The segments of each style of the current layer, by style index.
    pub fills: Seq<(u32, Seq<Seq<Point>>)>,
    pub strokes: Seq<(u32, Seq<Seq<Point>>)>,
    /// The output so far.
    pub commands: Seq<DrawPathView<F, L>>,
    /// Every layer flushed so far named styles of its lists only.
    pub styles_found: bool,
}

/// A new active path that starts at the pen.
pub open spec fn new_active(style_id: u32, x: i32, y: i32) -> ActivePathView {
    ActivePathView { style_id, points: seq![Point { x, y, is_bezier_control: false }] }
}

/// The active path with `p` added.
pub open spec fn with_point(path: Option<ActivePathView>, p: Point) -> Option<ActivePathView> {
    match path {
        Some(a) => Some(ActivePathView { points: a.points.push(p), ..a }),
        None => None,
    }
}

/// A point is added to the paths of all active styles.
pub open spec fn visit_point_spec<F, L>(s: ConverterState<F, L>, p: Point) -> ConverterState<F, L> {
    ConverterState {
        fill_style0: with_point(s.fill_style0, p),
        fill_style1: with_point(s.fill_style1, p),
        line_style: with_point(s.line_style, p),
        ..s
    }
}

/// The fills after the path of fill style 1 is merged.
pub open spec fn fill1_merged<F, L>(s: ConverterState<F, L>) -> Seq<(u32, Seq<Seq<Point>>)> {
    match s.fill_style1 {
        Some(p) => pending_merged(s.fills, p.style_id, p.points, true),
        None => s.fills,
    }
}

/// The fills after the path of fill style 0, reversed, is merged; a path
/// without edges is dropped.
pub open spec fn fill0_merged<F, L>(s: ConverterState<F, L>) -> Seq<(u32, Seq<Seq<Point>>)> {
    match s.fill_style0 {
        Some(p) => if p.points.len() > 1 {
            pending_merged(s.fills, p.style_id, p.points.reverse(), true)
        } else {
            s.fills
        },
        None => s.fills,
    }
}

/// The strokes after the path of the line style is merged.
pub open spec fn line_merged<F, L>(s: ConverterState<F, L>) -> Seq<(u32, Seq<Seq<Point>>)> {
    match s.line_style {
        Some(p) => pending_merged(s.strokes, p.style_id, p.points, false),
        None => s.strokes,
    }
}

/// The active path restarted at the pen, keeping its style.
pub open spec fn restarted(path: Option<ActivePathView>, x: i32, y: i32) -> Option<ActivePathView> {
    match path {
        Some(p) => Some(new_active(p.style_id, x, y)),
        None => None,
    }
}

/// When the pen jumps, the active paths are merged and restart at the pen.
pub open spec fn flush_paths_spec<F, L>(s: ConverterState<F, L>) -> ConverterState<F, L> {
    let s1 = ConverterState { fills: fill1_merged(s), fill_style1: restarted(s.fill_style1, s.x, s.y), ..s };
    let s2 = ConverterState { fills: fill0_merged(s1), fill_style0: restarted(s1.fill_style0, s1.x, s1.y), ..s1 };
    ConverterState { strokes: line_merged(s2), line_style: restarted(s2.line_style, s2.x, s2.y), ..s2 }
}

/// When a layer ends, its paths become output: fills first, then strokes.
pub open spec fn flush_layer_spec<F, L>(s: ConverterState<F, L>) -> ConverterState<F, L> {
    let t = flush_paths_spec(s);
    ConverterState {
        fill_style0: None,
        fill_style1: None,
        line_style: None,
        fills: Seq::empty(),
        strokes: Seq::empty(),
        commands: t.commands + fill_draws(t.fills, t.fill_styles) + stroke_draws(t.strokes, t.line_styles),
        styles_found: t.styles_found && ids_in_range(t.fills, t.fill_styles.len()) && ids_in_range(
            t.strokes,
            t.line_styles.len(),
        ),
        ..t
    }
}

/// A style index of 0 clears an active style; another starts a path at the pen.
pub open spec fn activated(style: u32, x: i32, y: i32) -> Option<ActivePathView> {
    if style != 0 {
        Some(new_active(style, x, y))
    } else {
        None
    }
}

/// A style change record: a pen move flushes the active paths, a new style
/// list flushes the layer, and each style given replaces the active one,
/// whose path is merged.
pub open spec fn style_change_spec<F, L>(s: ConverterState<F, L>, sc: StyleChange<F, L>) -> ConverterState<F, L> {
    let s1 = match sc.move_to {
        Some((mx, my)) => flush_paths_spec(ConverterState { x: mx, y: my, ..s }),
        None => s,
    };
    let s2 = match sc.new_styles {
        Some(st) => ConverterState {
            fill_styles: st.fill_styles@,
            line_styles: st.line_styles@,
            ..flush_layer_spec(s1)
        },
        None => s1,
    };
    let s3 = match sc.fill_style_1 {
        Some(fs) => ConverterState { fills: fill1_merged(s2), fill_style1: activated(fs, s2.x, s2.y), ..s2 },
        None => s2,
    };
    let s4 = match sc.fill_style_0 {
        Some(fs) => ConverterState { fills: fill0_merged(s3), fill_style0: activated(fs, s3.x, s3.y), ..s3 },
        None => s3,
    };
    match sc.line_style {
        Some(ls) => ConverterState { strokes: line_merged(s4), line_style: activated(ls, s4.x, s4.y), ..s4 },
        None => s4,
    }
}

/// One record of the outline.
pub open spec fn record_spec<F, L>(s: ConverterState<F, L>, record: ShapeRecord<F, L>) -> ConverterState<F, L> {
    match record {
        ShapeRecord::StyleChange(sc) => style_change_spec(s, sc),
        ShapeRecord::StraightEdge { delta_x, delta_y } => {
            let x = (s.x + delta_x) as i32;
            let y = (s.y + delta_y) as i32;
            visit_point_spec(ConverterState { x, y, ..s }, Point { x, y, is_bezier_control: false })
        },
        ShapeRecord::CurvedEdge { control_delta_x, control_delta_y, anchor_delta_x, anchor_delta_y } => {
            let x1 = (s.x + control_delta_x) as i32;
            let y1 = (s.y + control_delta_y) as i32;
            let x2 = (x1 + anchor_delta_x) as i32;
            let y2 = (y1 + anchor_delta_y) as i32;
            let s1 = visit_point_spec(s, Point { x: x1, y: y1, is_bezier_control: true });
            let s2 = visit_point_spec(s1, Point { x: x2, y: y2, is_bezier_control: false });
            ConverterState { x: x2, y: y2, ..s2 }
        },
    }
}

/// The records of the outline, in order.
pub open spec fn records_spec<F, L>(s: ConverterState<F, L>, records: Seq<ShapeRecord<F, L>>) -> ConverterState<F, L>
    decreases records.len(),
{
    if records.len() == 0 {
        s
    } else {
        records_spec(record_spec(s, records[0]), records.skip(1))
    }
}

/// The state before the first record of a shape: the pen at the origin,
/// the shape's own style lists, no active style.
pub open spec fn initial_state<F, L>(styles: ShapeStyles<F, L>) -> ConverterState<F, L> {
    ConverterState {
        x: 0,
        y: 0,
        fill_styles: styles.fill_styles@,
        line_styles: styles.line_styles@,
        fill_style0: None,
        fill_style1: None,
        line_style: None,
        fills: Seq::empty(),
        strokes: Seq::empty(),
        commands: Seq::empty(),
        styles_found: true,
    }
}

/// The whole conversion of a shape: its records, then the flush of the last layer.
pub open spec fn converted<F, L>(shape: Shape<F, L>) -> ConverterState<F, L> {
    flush_layer_spec(records_spec(initial_state(shape.styles), shape.shape@))
}


/// Whether the point at `i` is a curve's control point.
pub open spec fn control_at(points: Seq<Point>, i: int) -> bool {
    points[i].is_bezier_control
}

/// A segment as the pen draws it: it starts and ends at an ordinary point,
/// and each control point is followed by an ordinary one.
pub open spec fn wf_segment(points: Seq<Point>) -> bool {
    &&& points.len() >= 1
    &&& !points[0].is_bezier_control
    &&& !points.last().is_bezier_control
    &&& forall|i: int| 0 <= i < points.len() - 1 && #[trigger] control_at(points, i) ==> !points[i + 1].is_bezier_control
}

/// Every segment of a path is well formed.
pub open spec fn wf_segments(segments: Seq<Seq<Point>>) -> bool {
    forall|i: int| 0 <= i < segments.len() ==> wf_segment(#[trigger] segments[i])
}

/// Every pending path is well formed.
pub open spec fn wf_paths(paths: Seq<(u32, Seq<Seq<Point>>)>) -> bool {
    forall|i: int| 0 <= i < paths.len() ==> wf_segments(#[trigger] paths[i].1)
}

/// An active path, if any, is well formed.
pub open spec fn wf_active(path: Option<ActivePathView>) -> bool {
    match path {
        Some(p) => wf_segment(p.points),
        None => true,
    }
}

/// The invariant of a conversion between records: all its paths are well formed.
pub open spec fn wf_state<F, L>(s: ConverterState<F, L>) -> bool {
    &&& wf_active(s.fill_style0)
    &&& wf_active(s.fill_style1)
    &&& wf_active(s.line_style)
    &&& wf_paths(s.fills)
    &&& wf_paths(s.strokes)
}

proof fn lemma_wf_concat(a: Seq<Point>, b: Seq<Point>)
    requires
        wf_segment(a),
        wf_segment(b),
    ensures
        wf_segment(a + b),
{
    let c = a + b;
    assert forall|i: int| 0 <= i < c.len() - 1 && #[trigger] control_at(c, i) implies !c[i + 1].is_bezier_control by {
        if i < a.len() - 1 {
            assert(control_at(a, i));
        } else if i == a.len() - 1 {
            assert(c[i] == a.last());
        } else {
            assert(control_at(b, i - a.len()));
        }
    }
}

proof fn lemma_wf_reverse(a: Seq<Point>)
    requires
        wf_segment(a),
    ensures
        wf_segment(a.reverse()),
        a.reverse().len() == a.len(),
{
    let r = a.reverse();
    let n = a.len();
    assert(r.len() == n);
    assert forall|i: int| 0 <= i < n ==> #[trigger] r[i] == a[n - 1 - i] by {}
    assert forall|i: int| 0 <= i < r.len() - 1 && #[trigger] control_at(r, i) implies !r[i + 1].is_bezier_control by {
        let j = n - 2 - i;
        assert(r[i] == a[n - 1 - i]);
        assert(r[i + 1] == a[j]);
        if a[j].is_bezier_control {
            assert(control_at(a, j));
        }
    }
}

proof fn lemma_joined_wf(points: Seq<Point>, other: Seq<Point>, directed: bool)
    requires
        wf_segment(points),
        wf_segment(other),
        joined(points, other, directed) is Some,
    ensures
        wf_segment(joined(points, other, directed).unwrap()),
        joined(points, other, directed).unwrap().len() == points.len() + other.len(),
{
    lemma_wf_reverse(other);
    if same_position(other.last(), points[0]) {
        lemma_wf_concat(other, points);
    } else if same_position(points.last(), other[0]) {
        lemma_wf_concat(points, other);
    } else if !directed && same_position(points.last(), other.last()) {
        lemma_wf_concat(points, other.reverse());
    } else {
        lemma_wf_concat(other.reverse(), points);
    }
}

proof fn lemma_first_joinable(segments: Seq<Seq<Point>>, seg: Seq<Point>, directed: bool, from: int)
    requires
        0 <= from,
    ensures
        ({
            let i = first_joinable(segments, seg, directed, from);
            &&& (from <= i < segments.len() ==> joined(segments[i], seg, directed) is Some)
            &&& (from <= i <= segments.len() || i == segments.len())
            &&& forall|k: int| from <= k < i && k < segments.len() ==> joined(#[trigger] segments[k], seg, directed) is None
        }),
    decreases segments.len() - from,
{
    if from < segments.len() && joined(segments[from], seg, directed) is None {
        lemma_first_joinable(segments, seg, directed, from + 1);
    }
}

proof fn lemma_merge_wf(segments: Seq<Seq<Point>>, seg: Seq<Point>, directed: bool)
    requires
        wf_segments(segments),
        wf_segment(seg),
    ensures
        wf_segments(merge_segments(segments, seg, directed)),
    decreases segments.len(),
{
    if seg.len() > 1 {
        let i = first_joinable(segments, seg, directed, 0);
        lemma_first_joinable(segments, seg, directed, 0);
        if 0 <= i < segments.len() {
            let rest = segments.update(i, segments.last()).drop_last();
            assert(wf_segment(segments[i]));
            lemma_joined_wf(segments[i], seg, directed);
            assert forall|k: int| 0 <= k < rest.len() implies wf_segment(#[trigger] rest[k]) by {
                if k == i {
                    assert(wf_segment(segments[segments.len() - 1]));
                } else {
                    assert(wf_segment(segments[k]));
                }
            }
            lemma_merge_wf(rest, joined(segments[i], seg, directed).unwrap(), directed);
        } else {
            assert forall|k: int| 0 <= k < segments.push(seg).len() implies wf_segment(#[trigger] segments.push(seg)[k]) by {
                if k < segments.len() {
                    assert(wf_segment(segments[k]));
                }
            }
        }
    }
}

proof fn lemma_path_index(paths: Seq<(u32, Seq<Seq<Point>>)>, style_id: u32, from: int)
    requires
        0 <= from,
    ensures
        ({
            let j = path_index(paths, style_id, from);
            &&& (from <= j < paths.len() ==> paths[j].0 == style_id)
            &&& (from <= j <= paths.len() || j == paths.len())
            &&& forall|k: int| from <= k < j && k < paths.len() ==> (#[trigger] paths[k]).0 != style_id
        }),
    decreases paths.len() - from,
{
    if from < paths.len() && paths[from].0 != style_id {
        lemma_path_index(paths, style_id, from + 1);
    }
}

proof fn lemma_pending_wf(paths: Seq<(u32, Seq<Seq<Point>>)>, style_id: u32, seg: Seq<Point>, directed: bool)
    requires
        wf_paths(paths),
        wf_segment(seg),
    ensures
        wf_paths(pending_merged(paths, style_id, seg, directed)),
{
    let j = path_index(paths, style_id, 0);
    lemma_path_index(paths, style_id, 0);
    let out = pending_merged(paths, style_id, seg, directed);
    if j < paths.len() {
        assert(wf_segments(paths[j].1));
        lemma_merge_wf(paths[j].1, seg, directed);
    } else {
        lemma_merge_wf(Seq::empty(), seg, directed);
    }
    assert forall|k: int| 0 <= k < out.len() implies wf_segments(#[trigger] out[k].1) by {
        if k < paths.len() && k != j {
            assert(wf_segments(paths[k].1));
        }
    }
}

proof fn lemma_wf_push(points: Seq<Point>, p: Point)
    requires
        wf_segment(points),
        !p.is_bezier_control,
    ensures
        wf_segment(points.push(p)),
{
    let q = points.push(p);
    assert forall|i: int| 0 <= i < q.len() - 1 && #[trigger] control_at(q, i) implies !q[i + 1].is_bezier_control by {
        if i < points.len() - 1 {
            assert(control_at(points, i));
        }
    }
}

proof fn lemma_wf_push_curve(points: Seq<Point>, c: Point, a: Point)
    requires
        wf_segment(points),
        !a.is_bezier_control,
    ensures
        wf_segment(points.push(c).push(a)),
{
    let q = points.push(c).push(a);
    assert forall|i: int| 0 <= i < q.len() - 1 && #[trigger] control_at(q, i) implies !q[i + 1].is_bezier_control by {
        if i < points.len() - 1 {
            assert(control_at(points, i));
        } else if i == points.len() - 1 {
            assert(q[i] == points.last());
        }
    }
}

proof fn lemma_flush_paths_wf<F, L>(s: ConverterState<F, L>)
    requires
        wf_state(s),
    ensures
        wf_state(flush_paths_spec(s)),
{
    if let Some(p) = s.fill_style1 {
        lemma_pending_wf(s.fills, p.style_id, p.points, true);
    }
    let s1 = ConverterState { fills: fill1_merged(s), fill_style1: restarted(s.fill_style1, s.x, s.y), ..s };
    if let Some(p) = s1.fill_style0 {
        if p.points.len() > 1 {
            lemma_wf_reverse(p.points);
            lemma_pending_wf(s1.fills, p.style_id, p.points.reverse(), true);
        }
    }
    let s2 = ConverterState { fills: fill0_merged(s1), fill_style0: restarted(s1.fill_style0, s1.x, s1.y), ..s1 };
    if let Some(p) = s2.line_style {
        lemma_pending_wf(s2.strokes, p.style_id, p.points, false);
    }
}

proof fn lemma_flush_layer_wf<F, L>(s: ConverterState<F, L>)
    requires
        wf_state(s),
    ensures
        wf_state(flush_layer_spec(s)),
{
    lemma_flush_paths_wf(s);
}

proof fn lemma_style_change_wf<F, L>(s: ConverterState<F, L>, sc: StyleChange<F, L>)
    requires
        wf_state(s),
    ensures
        wf_state(style_change_spec(s, sc)),
{
    let s1 = match sc.move_to {
        Some((mx, my)) => flush_paths_spec(ConverterState { x: mx, y: my, ..s }),
        None => s,
    };
    if let Some((mx, my)) = sc.move_to {
        lemma_flush_paths_wf(ConverterState { x: mx, y: my, ..s });
    }
    let s2 = match sc.new_styles {
        Some(st) => ConverterState { fill_styles: st.fill_styles@, line_styles: st.line_styles@, ..flush_layer_spec(s1) },
        None => s1,
    };
    lemma_flush_layer_wf(s1);
    if let Some(p) = s2.fill_style1 {
        lemma_pending_wf(s2.fills, p.style_id, p.points, true);
    }
    let s3 = match sc.fill_style_1 {
        Some(fs) => ConverterState { fills: fill1_merged(s2), fill_style1: activated(fs, s2.x, s2.y), ..s2 },
        None => s2,
    };
    if let Some(p) = s3.fill_style0 {
        if p.points.len() > 1 {
            lemma_wf_reverse(p.points);
            lemma_pending_wf(s3.fills, p.style_id, p.points.reverse(), true);
        }
    }
    let s4 = match sc.fill_style_0 {
        Some(fs) => ConverterState { fills: fill0_merged(s3), fill_style0: activated(fs, s3.x, s3.y), ..s3 },
        None => s3,
    };
    if let Some(p) = s4.line_style {
        lemma_pending_wf(s4.strokes, p.style_id, p.points, false);
    }
}

/// Every record keeps the paths well formed.
proof fn lemma_record_wf<F, L>(s: ConverterState<F, L>, record: ShapeRecord<F, L>)
    requires
        wf_state(s),
    ensures
        wf_state(record_spec(s, record)),
{
    match record {
        ShapeRecord::StyleChange(sc) => lemma_style_change_wf(s, sc),
        ShapeRecord::StraightEdge { delta_x, delta_y } => {
            let x = (s.x + delta_x) as i32;
            let y = (s.y + delta_y) as i32;
            let p = Point { x, y, is_bezier_control: false };
            if let Some(a) = s.fill_style0 {
                lemma_wf_push(a.points, p);
            }
            if let Some(a) = s.fill_style1 {
                lemma_wf_push(a.points, p);
            }
            if let Some(a) = s.line_style {
                lemma_wf_push(a.points, p);
            }
        },
        ShapeRecord::CurvedEdge { control_delta_x, control_delta_y, anchor_delta_x, anchor_delta_y } => {
            let x1 = (s.x + control_delta_x) as i32;
            let y1 = (s.y + control_delta_y) as i32;
            let x2 = (x1 + anchor_delta_x) as i32;
            let y2 = (y1 + anchor_delta_y) as i32;
            let c = Point { x: x1, y: y1, is_bezier_control: true };
            let a = Point { x: x2, y: y2, is_bezier_control: false };
            if let Some(p) = s.fill_style0 {
                lemma_wf_push_curve(p.points, c, a);
            }
            if let Some(p) = s.fill_style1 {
                lemma_wf_push_curve(p.points, c, a);
            }
            if let Some(p) = s.line_style {
                lemma_wf_push_curve(p.points, c, a);
            }
        },
    }
}

/// Once a flushed layer names a missing style, the conversion stays marked.
proof fn lemma_found_monotone<F, L>(s: ConverterState<F, L>, records: Seq<ShapeRecord<F, L>>)
    ensures
        flush_layer_spec(records_spec(s, records)).styles_found ==> s.styles_found,
    decreases records.len(),
{
    if records.len() > 0 {
        lemma_found_monotone(record_spec(s, records[0]), records.skip(1));
    }
}


proof fn lemma_first_joinable_at(segments: Seq<Seq<Point>>, seg: Seq<Point>, directed: bool, from: int, i: int)
    requires
        0 <= from <= i <= segments.len(),
        forall|k: int| from <= k < i ==> joined(#[trigger] segments[k], seg, directed) is None,
        i < segments.len() ==> joined(segments[i], seg, directed) is Some,
    ensures
        first_joinable(segments, seg, directed, from) == i,
    decreases i - from,
{
    if from < i {
        lemma_first_joinable_at(segments, seg, directed, from + 1, i);
    }
}

proof fn lemma_path_index_at(paths: Seq<(u32, Seq<Seq<Point>>)>, style_id: u32, from: int, j: int)
    requires
        0 <= from <= j <= paths.len(),
        forall|k: int| from <= k < j ==> (#[trigger] paths[k]).0 != style_id,
        j < paths.len() ==> paths[j].0 == style_id,
    ensures
        path_index(paths, style_id, from) == j,
    decreases j - from,
{
    if from < j {
        lemma_path_index_at(paths, style_id, from + 1, j);
    }
}

/// A run of points linked together.
#[derive(Debug)]
struct PathSegment {
    points: Vec<Point>,
}

impl View for PathSegment {
    type V = Seq<Point>;

    closed spec fn view(&self) -> Seq<Point> {
        self.points@
    }
}

impl PathSegment {
    fn new(start: (i32, i32)) -> (r: Self)
        ensures
            r@ == seq![Point { x: start.0, y: start.1, is_bezier_control: false }],
    {
        let mut points: Vec<Point> = Vec::new();
        points.push(Point { x: start.0, y: start.1, is_bezier_control: false });
        PathSegment { points }
    }

    /// Reverse the segment's direction. Fill style 0 paths are reversed to
    /// be linked with fill style 1 paths.
    fn flip(&mut self)
        ensures
            final(self)@ == old(self)@.reverse(),
    {
        let n = self.points.len();
        let mut reversed: Vec<Point> = Vec::new();
        let mut k: usize = n;
        while k > 0
            invariant
                k <= n,
                n == self@.len(),
                reversed@.len() == n - k,
                forall|i: int| 0 <= i < reversed@.len() ==> #[trigger] reversed@[i] == self@[n - 1 - i],
            decreases k,
        {
            k = k - 1;
            reversed.push(self.points[k]);
        }
        proof {
            assert(reversed@ =~= self@.reverse());
        }
        self.points = reversed;
    }

    fn add_point(&mut self, point: Point)
        ensures
            final(self)@ == old(self)@.push(point),
    {
        self.points.push(point);
    }

    /// A segment of a single point has no edges.
    fn is_empty(&self) -> (r: bool)
        ensures
            r == (self@.len() <= 1),
    {
        self.points.len() <= 1
    }

    /// Whether `other` links to this segment.
    fn meets(&self, other: &PathSegment, directed: bool) -> (r: bool)
        requires
            self@.len() >= 1,
            other@.len() >= 1,
        ensures
            r == joined(self@, other@, directed) is Some,
    {
        let first = self.points[0];
        let last = self.points[self.points.len() - 1];
        let other_first = other.points[0];
        let other_last = other.points[other.points.len() - 1];
        (other_last.x == first.x && other_last.y == first.y) || (last.x == other_first.x && last.y == other_first.y)
            || (!directed && last.x == other_last.x && last.y == other_last.y) || (!directed && first.x
            == other_first.x && first.y == other_first.y)
    }

    /// Link `other` to this segment, where one's start meets the other's
    /// end; an undirected segment may be reversed to meet. Returns whether
    /// the segments were linked.
    fn try_merge(&mut self, other: &mut PathSegment, directed: bool) -> (r: bool)
        requires
            old(self)@.len() >= 1,
            old(other)@.len() >= 1,
        ensures
            r == joined(old(self)@, old(other)@, directed) is Some,
            r ==> final(self)@ == joined(old(self)@, old(other)@, directed).unwrap(),
            !r ==> final(self)@ == old(self)@,
    {
        let first = self.points[0];
        let last = self.points[self.points.len() - 1];
        let other_first = other.points[0];
        let other_last = other.points[other.points.len() - 1];
        if other_last.x == first.x && other_last.y == first.y {
            std::mem::swap(&mut self.points, &mut other.points);
            self.points.append(&mut other.points);
            true
        } else if last.x == other_first.x && last.y == other_first.y {
            self.points.append(&mut other.points);
            true
        } else if !directed && last.x == other_last.x && last.y == other_last.y {
            other.flip();
            self.points.append(&mut other.points);
            true
        } else if !directed && first.x == other_first.x && first.y == other_first.y {
            other.flip();
            std::mem::swap(&mut self.points, &mut other.points);
            self.points.append(&mut other.points);
            true
        } else {
            false
        }
    }

    /// Append the drawing commands of this segment.
    fn append_commands(&self, out: &mut Vec<DrawCommand>)
        requires
            wf_segment(self@),
        ensures
            final(out)@ == old(out)@ + segment_commands(self@),
    {
        let pts = &self.points;
        let len = pts.len();
        let ghost target = old(out)@ + segment_commands(self@);
        out.push(DrawCommand::MoveTo { x: pts[0].x, y: pts[0].y });
        proof {
            assert(self@.skip(1) =~= self@.subrange(1, len as int));
        }
        let mut n: usize = 1;
        while n < len
            invariant
                len == self@.len(),
                pts@ == self@,
                wf_segment(self@),
                1 <= n <= len,
                out@ + edge_commands(self@.subrange(n as int, len as int)) == target,
            decreases len - n,
        {
            let ghost rest = self@.subrange(n as int, len as int);
            let p = pts[n];
            if p.is_bezier_control {
                proof {
                    assert(control_at(self@, n as int));
                }
                let p2 = pts[n + 1];
                out.push(DrawCommand::CurveTo { x1: p.x, y1: p.y, x2: p2.x, y2: p2.y });
                proof {
                    assert(rest.skip(2) =~= self@.subrange(n + 2, len as int));
                }
                n = n + 2;
            } else {
                out.push(DrawCommand::LineTo { x: p.x, y: p.y });
                proof {
                    assert(rest.skip(1) =~= self@.subrange(n + 1, len as int));
                }
                n = n + 1;
            }
        }
        proof {
            assert(self@.subrange(n as int, len as int) =~= Seq::<Point>::empty());
            assert(out@ =~= target);
        }
    }
}

/// The segments of one style. For fills they should form closed paths once
/// the shape is complete; strokes may stay open.
#[derive(Debug)]
struct PendingPath {
    segments: Vec<PathSegment>,
}

impl View for PendingPath {
    type V = Seq<Seq<Point>>;

    closed spec fn view(&self) -> Seq<Seq<Point>> {
        self.segments@.map_values(|s: PathSegment| s@)
    }
}

impl PendingPath {
    fn new() -> (r: Self)
        ensures
            r@ == Seq::<Seq<Point>>::empty(),
    {
        let r = PendingPath { segments: Vec::new() };
        assert(r@ =~= Seq::<Seq<Point>>::empty());
        r
    }

    /// The first segment that `seg` links to, or the number of segments.
    fn joinable_index(&self, seg: &PathSegment, directed: bool) -> (r: usize)
        requires
            wf_segments(self@),
            seg@.len() >= 1,
        ensures
            r == first_joinable(self@, seg@, directed, 0),
    {
        let mut i: usize = 0;
        while i < self.segments.len()
            invariant
                i <= self@.len(),
                wf_segments(self@),
                seg@.len() >= 1,
                forall|k: int| 0 <= k < i ==> joined(#[trigger] self@[k], seg@, directed) is None,
            decreases self@.len() - i,
        {
            assert(wf_segment(self@[i as int]));
            if self.segments[i].meets(seg, directed) {
                proof {
                    lemma_first_joinable_at(self@, seg@, directed, 0, i as int);
                }
                return i;
            }
            i = i + 1;
        }
        proof {
            lemma_first_joinable_at(self@, seg@, directed, 0, i as int);
        }
        i
    }

    /// Add a segment, linking it with the segments it meets.
    fn merge_path(&mut self, new_segment: PathSegment, directed: bool)
        requires
            wf_segments(old(self)@),
            wf_segment(new_segment@),
        ensures
            final(self)@ == merge_segments(old(self)@, new_segment@, directed),
            wf_segments(final(self)@),
        decreases old(self)@.len(),
    {
        proof {
            lemma_merge_wf(self@, new_segment@, directed);
        }
        if !new_segment.is_empty() {
            let i = self.joinable_index(&new_segment, directed);
            proof {
                lemma_first_joinable(self@, new_segment@, directed, 0);
            }
            if i < self.segments.len() {
                let ghost before = self@;
                let mut segment = self.segments.swap_remove(i);
                let mut new_segment = new_segment;
                proof {
                    assert(segment@ == before[i as int]);
                    assert(self@ =~= before.update(i as int, before.last()).drop_last());
                    assert(wf_segment(before[i as int]));
                    lemma_joined_wf(before[i as int], new_segment@, directed);
                    assert forall|k: int| 0 <= k < self@.len() implies wf_segment(#[trigger] self@[k]) by {
                        if k == i {
                            assert(wf_segment(before[before.len() - 1]));
                        } else {
                            assert(wf_segment(before[k]));
                        }
                    }
                }
                segment.try_merge(&mut new_segment, directed);
                self.merge_path(segment, directed);
            } else {
                let ghost before = self@;
                self.segments.push(new_segment);
                proof {
                    assert(self@ =~= before.push(new_segment@));
                }
            }
        }
    }

    /// The drawing commands of all segments with edges.
    fn commands(&self) -> (r: Vec<DrawCommand>)
        requires
            wf_segments(self@),
        ensures
            r@ == path_commands(self@),
    {
        let mut out: Vec<DrawCommand> = Vec::new();
        let mut k: usize = 0;
        proof {
            assert(self@.skip(0) =~= self@);
        }
        while k < self.segments.len()
            invariant
                k <= self@.len(),
                wf_segments(self@),
                out@ + path_commands(self@.skip(k as int)) == path_commands(self@),
            decreases self@.len() - k,
        {
            let ghost rest = self@.skip(k as int);
            proof {
                assert(rest[0] == self@[k as int]);
                assert(rest.skip(1) =~= self@.skip(k + 1));
                assert(wf_segment(self@[k as int]));
            }
            let segment = &self.segments[k];
            if !segment.is_empty() {
                segment.append_commands(&mut out);
            }
            proof {
                assert(out@ + path_commands(self@.skip(k + 1)) =~= path_commands(self@));
            }
            k = k + 1;
        }
        proof {
            assert(self@.skip(k as int) =~= Seq::<Seq<Point>>::empty());
            assert(out@ =~= path_commands(self@));
        }
        out
    }
}

/// The pending paths of a layer, by style index. Each style has one entry.
#[derive(Debug)]
pub struct PendingPathMap {
    paths: Vec<(u32, PendingPath)>,
}

impl View for PendingPathMap {
    type V = Seq<(u32, Seq<Seq<Point>>)>;

    closed spec fn view(&self) -> Seq<(u32, Seq<Seq<Point>>)> {
        self.paths@.map_values(|e: (u32, PendingPath)| (e.0, e.1@))
    }
}

impl PendingPathMap {
    fn new() -> (r: Self)
        ensures
            r@ == Seq::<(u32, Seq<Seq<Point>>)>::empty(),
    {
        let r = PendingPathMap { paths: Vec::new() };
        assert(r@ =~= Seq::<(u32, Seq<Seq<Point>>)>::empty());
        r
    }

    /// The index of a style's entry, or the number of entries.
    fn index_of(&self, style_id: u32) -> (r: usize)
        ensures
            r == path_index(self@, style_id, 0),
    {
        let mut j: usize = 0;
        while j < self.paths.len()
            invariant
                j <= self@.len(),
                forall|k: int| 0 <= k < j ==> (#[trigger] self@[k]).0 != style_id,
            decreases self@.len() - j,
        {
            if self.paths[j].0 == style_id {
                proof {
                    lemma_path_index_at(self@, style_id, 0, j as int);
                }
                return j;
            }
            j = j + 1;
        }
        proof {
            lemma_path_index_at(self@, style_id, 0, j as int);
        }
        j
    }

    /// Merge an active path into the entry of its style.
    fn merge_path(&mut self, path: ActivePath, directed: bool)
        requires
            wf_paths(old(self)@),
            wf_segment(path@.points),
        ensures
            final(self)@ == pending_merged(old(self)@, path@.style_id, path@.points, directed),
            wf_paths(final(self)@),
    {
        proof {
            lemma_pending_wf(self@, path@.style_id, path@.points, directed);
            lemma_path_index(self@, path@.style_id, 0);
        }
        let ghost before = self@;
        let style_id = path.style_id;
        let j = self.index_of(style_id);
        if j < self.paths.len() {
            let (id, mut pending) = self.paths.remove(j);
            proof {
                assert(pending@ == before[j as int].1);
                assert(wf_segments(before[j as int].1));
            }
            pending.merge_path(path.segment, directed);
            self.paths.insert(j, (id, pending));
            proof {
                assert(self@ =~= before.update(j as int, (style_id, merge_segments(before[j as int].1, path@.points, directed))));
            }
        } else {
            let mut pending = PendingPath::new();
            pending.merge_path(path.segment, directed);
            self.paths.push((style_id, pending));
            proof {
                assert(self@ =~= before.push((style_id, merge_segments(Seq::empty(), path@.points, directed))));
            }
        }
    }
}

/// The path of an active style as the pen draws it.
#[derive(Debug)]
pub struct ActivePath {
    style_id: u32,
    segment: PathSegment,
}

impl View for ActivePath {
    type V = ActivePathView;

    closed spec fn view(&self) -> ActivePathView {
        ActivePathView { style_id: self.style_id, points: self.segment@ }
    }
}

impl ActivePath {
    fn new(style_id: u32, start: (i32, i32)) -> (r: Self)
        ensures
            r@ == new_active(style_id, start.0, start.1),
    {
        ActivePath { style_id, segment: PathSegment::new(start) }
    }

    fn add_point(&mut self, point: Point)
        ensures
            final(self)@ == (ActivePathView { points: old(self)@.points.push(point), ..old(self)@ }),
    {
        self.segment.add_point(point)
    }

    fn flip(&mut self)
        ensures
            final(self)@ == (ActivePathView { points: old(self)@.points.reverse(), ..old(self)@ }),
    {
        self.segment.flip()
    }
}


/// The view of an optional active path.
pub open spec fn active_view(path: Option<ActivePath>) -> Option<ActivePathView> {
    match path {
        Some(p) => Some(p@),
        None => None,
    }
}

/// Turns a shape's outline into fill and stroke paths, layer by layer.
pub struct ShapeConverter<'a, F, L> {
    /// The records, and the index of the next one.
    records: &'a [ShapeRecord<F, L>],
    next: usize,
    /// The pen position.
    x: i32,
    y: i32,
    /// The style lists of the current layer. They change with a new style
    /// list, which also flushes the layer.
    fill_styles: &'a [F],
    line_styles: &'a [L],
    fill_style0: Option<ActivePath>,
    fill_style1: Option<ActivePath>,
    line_style: Option<ActivePath>,
    /// The paths of the current layer, flushed at its end.
    fills: PendingPathMap,
    strokes: PendingPathMap,
    /// The output.
    commands: Vec<DrawPath<'a, F, L>>,
}

impl<'a, F, L> ShapeConverter<'a, F, L> {
    /// The conversion state.
    pub closed spec fn state(&self) -> ConverterState<F, L> {
        ConverterState {
            x: self.x,
            y: self.y,
            fill_styles: self.fill_styles@,
            line_styles: self.line_styles@,
            fill_style0: active_view(self.fill_style0),
            fill_style1: active_view(self.fill_style1),
            line_style: active_view(self.line_style),
            fills: self.fills@,
            strokes: self.strokes@,
            commands: self.commands@.map_values(|d: DrawPath<'a, F, L>| d@),
            styles_found: true,
        }
    }

    /// The records still to convert.
    pub closed spec fn remaining(&self) -> Seq<ShapeRecord<F, L>> {
        self.records@.skip(self.next as int)
    }

    /// The converter's invariant: its paths are well formed.
    pub closed spec fn inv(&self) -> bool {
        &&& self.next <= self.records@.len()
        &&& wf_state(self.state())
    }

    /// The output of the records still to convert.
    pub open spec fn result(&self) -> ConverterState<F, L> {
        flush_layer_spec(records_spec(self.state(), self.remaining()))
    }

    /// A converter at the start of a shape.
    pub fn from_shape(shape: &'a Shape<F, L>) -> (r: Self)
        ensures
            r.inv(),
            r.state() == initial_state(shape.styles),
            r.remaining() == shape.shape@,
    {
        let r = ShapeConverter {
            records: shape.shape.as_slice(),
            next: 0,
            x: 0,
            y: 0,
            fill_styles: shape.styles.fill_styles.as_slice(),
            line_styles: shape.styles.line_styles.as_slice(),
            fill_style0: None,
            fill_style1: None,
            line_style: None,
            fills: PendingPathMap::new(),
            strokes: PendingPathMap::new(),
            commands: Vec::new(),
        };
        proof {
            assert(r.state().commands =~= Seq::<DrawPathView<F, L>>::empty());
            assert(r.remaining() =~= shape.shape@);
        }
        r
    }

    /// Add a point to the paths of all active styles.
    fn visit_point(&mut self, point: Point)
        ensures
            final(self).state() == visit_point_spec(old(self).state(), point),
            final(self).records == old(self).records,
            final(self).next == old(self).next,
    {
        if let Some(path) = &mut self.fill_style0 {
            path.add_point(point);
        }
        if let Some(path) = &mut self.fill_style1 {
            path.add_point(point);
        }
        if let Some(path) = &mut self.line_style {
            path.add_point(point);
        }
    }

    /// When the pen jumps, the active paths are merged into the layer's
    /// paths, and restart at the pen.
    fn flush_paths(&mut self)
        requires
            wf_state(old(self).state()),
        ensures
            final(self).state() == flush_paths_spec(old(self).state()),
            wf_state(final(self).state()),
            final(self).records == old(self).records,
            final(self).next == old(self).next,
    {
        proof {
            lemma_flush_paths_wf(self.state());
        }
        if let Some(path) = self.fill_style1.take() {
            self.fill_style1 = Some(ActivePath::new(path.style_id, (self.x, self.y)));
            self.fills.merge_path(path, true);
        }
        if let Some(mut path) = self.fill_style0.take() {
            self.fill_style0 = Some(ActivePath::new(path.style_id, (self.x, self.y)));
            if !path.segment.is_empty() {
                proof {
                    lemma_wf_reverse(path@.points);
                }
                path.flip();
                self.fills.merge_path(path, true);
            }
        }
        if let Some(path) = self.line_style.take() {
            self.line_style = Some(ActivePath::new(path.style_id, (self.x, self.y)));
            self.strokes.merge_path(path, false);
        }
    }
}


impl<'a, F, L> ShapeConverter<'a, F, L> {
    /// When a layer ends, its paths are turned into output: fills first,
    /// then strokes, which are drawn on top of the layer's fills.
    fn flush_layer(&mut self)
        requires
            wf_state(old(self).state()),
            flush_layer_spec(old(self).state()).styles_found,
        ensures
            final(self).state() == flush_layer_spec(old(self).state()),
            wf_state(final(self).state()),
            final(self).records == old(self).records,
            final(self).next == old(self).next,
    {
        let ghost target = flush_layer_spec(self.state());
        let ghost records = self.records;
        let ghost next = self.next;
        proof {
            lemma_flush_layer_wf(self.state());
        }
        self.flush_paths();
        let ghost t = self.state();
        self.fill_style0 = None;
        self.fill_style1 = None;
        self.line_style = None;
        let mut fills = PendingPathMap::new();
        std::mem::swap(&mut fills, &mut self.fills);
        let mut strokes = PendingPathMap::new();
        std::mem::swap(&mut strokes, &mut self.strokes);
        let fill_styles = self.fill_styles;
        let line_styles = self.line_styles;
        let ghost base = self.state().commands;
        proof {
            assert(base == t.commands);
            assert(fills@.skip(0) =~= fills@);
            assert(strokes@.skip(0) =~= strokes@);
            assert(ids_in_range(fills@, fill_styles@.len()));
            assert(ids_in_range(strokes@, line_styles@.len()));
        }
        let mut k: usize = 0;
        while k < fills.paths.len()
            invariant
                k <= fills@.len(),
                fill_styles@ == t.fill_styles,
                fills@ == t.fills,
                wf_paths(fills@),
                ids_in_range(fills@, fill_styles@.len()),
                self.state().commands + fill_draws(fills@.skip(k as int), fill_styles@) == base + fill_draws(
                    t.fills,
                    t.fill_styles,
                ),
                self.state() == (ConverterState {
                    commands: self.state().commands,
                    ..target
                }),
                self.records == records,
                self.next == next,
            decreases fills@.len() - k,
        {
            let ghost rest = fills@.skip(k as int);
            let ghost before = self.state().commands;
            proof {
                assert(rest[0] == fills@[k as int]);
                assert(rest.skip(1) =~= fills@.skip(k + 1));
                assert(wf_segments(fills@[k as int].1));
                assert(1 <= fills@[k as int].0 <= fill_styles@.len());
            }
            let entry = &fills.paths[k];
            let style = &fill_styles[(entry.0 - 1) as usize];
            let commands = entry.1.commands();
            self.commands.push(DrawPath::Fill { style, commands });
            proof {
                assert(self.state().commands =~= before.push(
                    DrawPathView::Fill { style: fill_styles@[fills@[k as int].0 - 1], commands: path_commands(fills@[k as int].1) },
                ));
                assert(self.state().commands + fill_draws(fills@.skip(k + 1), fill_styles@) =~= before + fill_draws(rest, fill_styles@));
            }
            k = k + 1;
        }
        let ghost mid = self.state().commands;
        proof {
            assert(fills@.skip(k as int) =~= Seq::<(u32, Seq<Seq<Point>>)>::empty());
            assert(mid =~= base + fill_draws(t.fills, t.fill_styles));
        }
        let mut k: usize = 0;
        while k < strokes.paths.len()
            invariant
                k <= strokes@.len(),
                line_styles@ == t.line_styles,
                strokes@ == t.strokes,
                wf_paths(strokes@),
                ids_in_range(strokes@, line_styles@.len()),
                self.state().commands + stroke_draws(strokes@.skip(k as int), line_styles@) == mid + stroke_draws(
                    t.strokes,
                    t.line_styles,
                ),
                self.state() == (ConverterState {
                    commands: self.state().commands,
                    ..target
                }),
                self.records == records,
                self.next == next,
            decreases strokes@.len() - k,
        {
            let ghost rest = strokes@.skip(k as int);
            let ghost before = self.state().commands;
            proof {
                assert(rest[0] == strokes@[k as int]);
                assert(rest.skip(1) =~= strokes@.skip(k + 1));
                assert(wf_segments(strokes@[k as int].1));
                assert(1 <= strokes@[k as int].0 <= line_styles@.len());
            }
            let entry = &strokes.paths[k];
            if entry.1.segments.len() > 0 {
                let style = &line_styles[(entry.0 - 1) as usize];
                let commands = entry.1.commands();
                self.commands.push(DrawPath::Stroke { style, commands });
                proof {
                    assert(self.state().commands =~= before.push(
                        DrawPathView::Stroke { style: line_styles@[strokes@[k as int].0 - 1], commands: path_commands(strokes@[k as int].1) },
                    ));
                }
            }
            proof {
                assert(self.state().commands + stroke_draws(strokes@.skip(k + 1), line_styles@) =~= before + stroke_draws(rest, line_styles@));
            }
            k = k + 1;
        }
        proof {
            assert(strokes@.skip(k as int) =~= Seq::<(u32, Seq<Seq<Point>>)>::empty());
            assert(self.state().commands =~= target.commands);
        }
    }
}


impl<'a, F, L> ShapeConverter<'a, F, L> {
    /// A style change record: a pen move flushes the active paths, a new
    /// style list flushes the layer, and each style given replaces the
    /// active one, whose path is merged.
    fn style_change(&mut self, style_change: &'a StyleChange<F, L>)
        requires
            wf_state(old(self).state()),
            style_change_spec(old(self).state(), *style_change).styles_found,
        ensures
            final(self).state() == style_change_spec(old(self).state(), *style_change),
            wf_state(final(self).state()),
            final(self).records == old(self).records,
            final(self).next == old(self).next,
    {
        proof {
            lemma_style_change_wf(self.state(), *style_change);
        }
        if let Some((x, y)) = style_change.move_to {
            self.x = x;
            self.y = y;
            // The pen was lifted: a new path starts.
            self.flush_paths();
        }
        if let Some(styles) = &style_change.new_styles {
            // A new style list also starts a new drawing layer.
            self.flush_layer();
            self.fill_styles = styles.fill_styles.as_slice();
            self.line_styles = styles.line_styles.as_slice();
        }
        if let Some(fs) = style_change.fill_style_1 {
            if let Some(path) = self.fill_style1.take() {
                self.fills.merge_path(path, true);
            }
            self.fill_style1 = if fs != 0 {
                Some(ActivePath::new(fs, (self.x, self.y)))
            } else {
                None
            };
        }
        if let Some(fs) = style_change.fill_style_0 {
            if let Some(mut path) = self.fill_style0.take() {
                if !path.segment.is_empty() {
                    proof {
                        lemma_wf_reverse(path@.points);
                    }
                    path.flip();
                    self.fills.merge_path(path, true);
                }
            }
            self.fill_style0 = if fs != 0 {
                Some(ActivePath::new(fs, (self.x, self.y)))
            } else {
                None
            };
        }
        if let Some(ls) = style_change.line_style {
            if let Some(path) = self.line_style.take() {
                self.strokes.merge_path(path, false);
            }
            self.line_style = if ls != 0 {
                Some(ActivePath::new(ls, (self.x, self.y)))
            } else {
                None
            };
        }
    }

    /// Convert the remaining records, and flush the last layer. The pen
    /// positions must fit in twips, and every flushed layer must name
    /// styles of its lists only.
    pub fn into_commands(self) -> (r: Vec<DrawPath<'a, F, L>>)
        requires
            self.inv(),
            points_fit(pen_points(self.remaining(), self.state().x as int, self.state().y as int)),
            self.result().styles_found,
        ensures
            r@.map_values(|d: DrawPath<'a, F, L>| d@) == self.result().commands,
    {
        let ghost target = self.result();
        let mut conv = self;
        let records = conv.records;
        while conv.next < records.len()
            invariant
                conv.inv(),
                conv.records == records,
                flush_layer_spec(records_spec(conv.state(), conv.remaining())) == target,
                points_fit(pen_points(conv.remaining(), conv.state().x as int, conv.state().y as int)),
                target.styles_found,
            decreases records@.len() - conv.next,
        {
            let ghost s = conv.state();
            let ghost rest = conv.remaining();
            let record = &records[conv.next];
            proof {
                assert(rest[0] == *record);
                assert(rest.skip(1) =~= records@.skip(conv.next + 1));
                lemma_found_monotone(record_spec(s, *record), rest.skip(1));
                lemma_record_wf(s, *record);
            }
            match record {
                ShapeRecord::StyleChange(style_change) => {
                    conv.style_change(style_change);
                    proof {
                        let pts = pen_points(rest, s.x as int, s.y as int);
                        let tail = pen_points(rest.skip(1), conv.state().x as int, conv.state().y as int);
                        if let Some((mx, my)) = style_change.move_to {
                            assert(pts == seq![(mx as int, my as int)] + tail);
                            assert forall|i: int| 0 <= i < tail.len() implies i32::MIN <= (#[trigger] tail[i]).0 <= i32::MAX
                                && i32::MIN <= tail[i].1 <= i32::MAX by {
                                assert(tail[i] == pts[i + 1]);
                            }
                        } else {
                            assert(pts == tail);
                        }
                    }
                },
                ShapeRecord::StraightEdge { delta_x, delta_y } => {
                    proof {
                        let pts = pen_points(rest, s.x as int, s.y as int);
                        assert(pts[0] == (s.x + *delta_x, s.y + *delta_y));
                    }
                    conv.x = conv.x + *delta_x;
                    conv.y = conv.y + *delta_y;
                    let point = Point { x: conv.x, y: conv.y, is_bezier_control: false };
                    conv.visit_point(point);
                    proof {
                        let pts = pen_points(rest, s.x as int, s.y as int);
                        let tail = pen_points(rest.skip(1), conv.state().x as int, conv.state().y as int);
                        assert(pts == seq![(conv.x as int, conv.y as int)] + tail);
                        assert forall|i: int| 0 <= i < tail.len() implies i32::MIN <= (#[trigger] tail[i]).0 <= i32::MAX
                            && i32::MIN <= tail[i].1 <= i32::MAX by {
                            assert(tail[i] == pts[i + 1]);
                        }
                    }
                },
                ShapeRecord::CurvedEdge { control_delta_x, control_delta_y, anchor_delta_x, anchor_delta_y } => {
                    proof {
                        let pts = pen_points(rest, s.x as int, s.y as int);
                        assert(pts[0] == (s.x + *control_delta_x, s.y + *control_delta_y));
                        assert(pts[1] == (s.x + *control_delta_x + *anchor_delta_x, s.y + *control_delta_y + *anchor_delta_y));
                    }
                    let x1 = conv.x + *control_delta_x;
                    let y1 = conv.y + *control_delta_y;
                    conv.visit_point(Point { x: x1, y: y1, is_bezier_control: true });
                    let x2 = x1 + *anchor_delta_x;
                    let y2 = y1 + *anchor_delta_y;
                    conv.visit_point(Point { x: x2, y: y2, is_bezier_control: false });
                    conv.x = x2;
                    conv.y = y2;
                    proof {
                        let pts = pen_points(rest, s.x as int, s.y as int);
                        let tail = pen_points(rest.skip(1), conv.state().x as int, conv.state().y as int);
                        assert(pts == seq![(x1 as int, y1 as int), (x2 as int, y2 as int)] + tail);
                        assert forall|i: int| 0 <= i < tail.len() implies i32::MIN <= (#[trigger] tail[i]).0 <= i32::MAX
                            && i32::MIN <= tail[i].1 <= i32::MAX by {
                            assert(tail[i] == pts[i + 2]);
                        }
                    }
                },
            }
            conv.next = conv.next + 1;
            proof {
                assert(conv.remaining() =~= rest.skip(1));
                assert(conv.state() == record_spec(s, rest[0]));
            }
        }
        proof {
            assert(conv.remaining() =~= Seq::<ShapeRecord<F, L>>::empty());
        }
        // Flush any open paths.
        conv.flush_layer();
        conv.commands
    }
}

/// Every style has at most one entry among the pending paths.
pub open spec fn styles_unique(paths: Seq<(u32, Seq<Seq<Point>>)>) -> bool {
    forall|i: int, j: int| 0 <= i < paths.len() && 0 <= j < paths.len() && i != j ==> #[trigger] paths[i].0 != #[trigger] paths[j].0
}

/// Each pending path is identified by its style: merging a segment keeps
/// one entry per style, and leaves an entry for the segment's style.
pub proof fn law_one_path_per_style(paths: Seq<(u32, Seq<Seq<Point>>)>, style_id: u32, seg: Seq<Point>, directed: bool)
    requires
        styles_unique(paths),
    ensures
        styles_unique(pending_merged(paths, style_id, seg, directed)),
        exists|i: int|
            0 <= i < pending_merged(paths, style_id, seg, directed).len() && (#[trigger] pending_merged(
                paths,
                style_id,
                seg,
                directed,
            )[i]).0 == style_id,
{
    lemma_path_index(paths, style_id, 0);
    let j = path_index(paths, style_id, 0);
    let out = pending_merged(paths, style_id, seg, directed);
    if j < paths.len() {
        assert(out[j].0 == style_id);
    } else {
        assert(out[paths.len() as int].0 == style_id);
    }
    assert forall|a: int, b: int| 0 <= a < out.len() && 0 <= b < out.len() && a != b implies #[trigger] out[a].0
        != #[trigger] out[b].0 by {
        if a < paths.len() && b < paths.len() {
            assert(paths[a].0 != paths[b].0);
        }
    }
}

/// The number of points of a path's segments.
pub open spec fn points_count(segments: Seq<Seq<Point>>) -> int
    decreases segments.len(),
{
    if segments.len() == 0 {
        0
    } else {
        points_count(segments.drop_last()) + segments.last().len()
    }
}

proof fn lemma_points_count_update(segments: Seq<Seq<Point>>, i: int, v: Seq<Point>)
    requires
        0 <= i < segments.len(),
    ensures
        points_count(segments.update(i, v)) == points_count(segments) - segments[i].len() + v.len(),
    decreases segments.len(),
{
    let u = segments.update(i, v);
    if i == segments.len() - 1 {
        assert(u.drop_last() =~= segments.drop_last());
    } else {
        assert(u.drop_last() =~= segments.drop_last().update(i, v));
        lemma_points_count_update(segments.drop_last(), i, v);
    }
}

/// Linking loses no point: merging a segment with edges adds all its
/// points to the path, and a segment of a single point adds nothing.
pub proof fn law_linking_keeps_points(segments: Seq<Seq<Point>>, seg: Seq<Point>, directed: bool)
    requires
        wf_segments(segments),
        wf_segment(seg),
    ensures
        points_count(merge_segments(segments, seg, directed)) == points_count(segments) + if seg.len() > 1 {
            seg.len() as int
        } else {
            0
        },
    decreases segments.len(),
{
    if seg.len() > 1 {
        let i = first_joinable(segments, seg, directed, 0);
        lemma_first_joinable(segments, seg, directed, 0);
        if 0 <= i < segments.len() {
            let rest = segments.update(i, segments.last()).drop_last();
            assert(wf_segment(segments[i]));
            lemma_joined_wf(segments[i], seg, directed);
            assert forall|k: int| 0 <= k < rest.len() implies wf_segment(#[trigger] rest[k]) by {
                if k == i {
                    assert(wf_segment(segments[segments.len() - 1]));
                } else {
                    assert(wf_segment(segments[k]));
                }
            }
            lemma_points_count_update(segments, i, segments.last());
            let upd = segments.update(i, segments.last());
            assert(upd.last() == segments.last());
            law_linking_keeps_points(rest, joined(segments[i], seg, directed).unwrap(), directed);
        } else {
            assert(segments.push(seg).drop_last() =~= segments);
        }
    }
}

/// A style index, where one is given, names a style of a list of `count`.
pub open spec fn style_ref_in_range(style: Option<u32>, count: nat) -> bool {
    match style {
        Some(s) => s <= count,
        None => true,
    }
}

/// Every style index of the records names a style of the list in effect:
/// the shape's lists, then those of the latest new style list.
pub open spec fn style_refs_in_range<F, L>(records: Seq<ShapeRecord<F, L>>, fills: nat, lines: nat) -> bool
    decreases records.len(),
{
    if records.len() == 0 {
        true
    } else {
        match records[0] {
            ShapeRecord::StyleChange(sc) => {
                let f = match sc.new_styles {
                    Some(st) => st.fill_styles@.len(),
                    None => fills,
                };
                let l = match sc.new_styles {
                    Some(st) => st.line_styles@.len(),
                    None => lines,
                };
                &&& style_ref_in_range(sc.fill_style_0, f)
                &&& style_ref_in_range(sc.fill_style_1, f)
                &&& style_ref_in_range(sc.line_style, l)
                &&& style_refs_in_range(records.skip(1), f, l)
            },
            _ => style_refs_in_range(records.skip(1), fills, lines),
        }
    }
}

/// Whether every style index of a shape names a style of the list in effect.
pub fn style_indices_in_range<F, L>(shape: &Shape<F, L>) -> (r: bool)
    ensures
        r == style_refs_in_range(shape.shape@, shape.styles.fill_styles@.len(), shape.styles.line_styles@.len()),
{
    let records = shape.shape.as_slice();
    let mut fills: usize = shape.styles.fill_styles.len();
    let mut lines: usize = shape.styles.line_styles.len();
    let ghost target = style_refs_in_range(records@, fills as nat, lines as nat);
    let mut i: usize = 0;
    proof {
        assert(records@.skip(0) =~= records@);
    }
    while i < records.len()
        invariant
            i <= records@.len(),
            records@ == shape.shape@,
            target == style_refs_in_range(shape.shape@, shape.styles.fill_styles@.len(), shape.styles.line_styles@.len()),
            target == style_refs_in_range(records@.skip(i as int), fills as nat, lines as nat),
        decreases records@.len() - i,
    {
        let ghost rest = records@.skip(i as int);
        proof {
            assert(rest[0] == records@[i as int]);
            assert(rest.skip(1) =~= records@.skip(i + 1));
        }
        if let ShapeRecord::StyleChange(sc) = &records[i] {
            if let Some(styles) = &sc.new_styles {
                fills = styles.fill_styles.len();
                lines = styles.line_styles.len();
            }
            let fill_0_ok = match sc.fill_style_0 {
                Some(s) => s as usize <= fills,
                None => true,
            };
            let fill_1_ok = match sc.fill_style_1 {
                Some(s) => s as usize <= fills,
                None => true,
            };
            let line_ok = match sc.line_style {
                Some(s) => s as usize <= lines,
                None => true,
            };
            if !(fill_0_ok && fill_1_ok && line_ok) {
                return false;
            }
        }
        i = i + 1;
    }
    true
}

/// The style indices of a conversion state all name styles of the current
/// lists, and no flushed layer named a missing style.
pub open spec fn styles_named<F, L>(s: ConverterState<F, L>) -> bool {
    &&& s.styles_found
    &&& ids_in_range(s.fills, s.fill_styles.len())
    &&& ids_in_range(s.strokes, s.line_styles.len())
    &&& (s.fill_style0 matches Some(p) ==> 1 <= p.style_id <= s.fill_styles.len())
    &&& (s.fill_style1 matches Some(p) ==> 1 <= p.style_id <= s.fill_styles.len())
    &&& (s.line_style matches Some(p) ==> 1 <= p.style_id <= s.line_styles.len())
}

proof fn lemma_pending_ids(paths: Seq<(u32, Seq<Seq<Point>>)>, style_id: u32, seg: Seq<Point>, directed: bool, count: nat)
    requires
        ids_in_range(paths, count),
        1 <= style_id <= count,
    ensures
        ids_in_range(pending_merged(paths, style_id, seg, directed), count),
{
    lemma_path_index(paths, style_id, 0);
    let out = pending_merged(paths, style_id, seg, directed);
    assert forall|i: int| 0 <= i < out.len() implies 1 <= (#[trigger] out[i]).0 <= count by {
        if i < paths.len() && i != path_index(paths, style_id, 0) {
            assert(out[i] == paths[i]);
        }
    }
}

proof fn lemma_flush_paths_named<F, L>(s: ConverterState<F, L>)
    requires
        styles_named(s),
    ensures
        styles_named(flush_paths_spec(s)),
{
    if let Some(p) = s.fill_style1 {
        lemma_pending_ids(s.fills, p.style_id, p.points, true, s.fill_styles.len());
    }
    let s1 = ConverterState { fills: fill1_merged(s), fill_style1: restarted(s.fill_style1, s.x, s.y), ..s };
    if let Some(p) = s1.fill_style0 {
        lemma_pending_ids(s1.fills, p.style_id, p.points.reverse(), true, s1.fill_styles.len());
    }
    let s2 = ConverterState { fills: fill0_merged(s1), fill_style0: restarted(s1.fill_style0, s1.x, s1.y), ..s1 };
    if let Some(p) = s2.line_style {
        lemma_pending_ids(s2.strokes, p.style_id, p.points, false, s2.line_styles.len());
    }
}

proof fn lemma_record_named<F, L>(s: ConverterState<F, L>, record: ShapeRecord<F, L>)
    requires
        styles_named(s),
        match record {
            ShapeRecord::StyleChange(sc) => {
                let f = match sc.new_styles {
                    Some(st) => st.fill_styles@.len(),
                    None => s.fill_styles.len(),
                };
                let l = match sc.new_styles {
                    Some(st) => st.line_styles@.len(),
                    None => s.line_styles.len(),
                };
                style_ref_in_range(sc.fill_style_0, f) && style_ref_in_range(sc.fill_style_1, f)
                    && style_ref_in_range(sc.line_style, l)
            },
            _ => true,
        },
    ensures
        styles_named(record_spec(s, record)),
{
    match record {
        ShapeRecord::StyleChange(sc) => {
            let s1 = match sc.move_to {
                Some((mx, my)) => flush_paths_spec(ConverterState { x: mx, y: my, ..s }),
                None => s,
            };
            if let Some((mx, my)) = sc.move_to {
                lemma_flush_paths_named(ConverterState { x: mx, y: my, ..s });
            }
            lemma_flush_paths_named(s1);
            let s2 = match sc.new_styles {
                Some(st) => ConverterState {
                    fill_styles: st.fill_styles@,
                    line_styles: st.line_styles@,
                    ..flush_layer_spec(s1)
                },
                None => s1,
            };
            if let Some(p) = s2.fill_style1 {
                lemma_pending_ids(s2.fills, p.style_id, p.points, true, s2.fill_styles.len());
            }
            let s3 = match sc.fill_style_1 {
                Some(fs) => ConverterState { fills: fill1_merged(s2), fill_style1: activated(fs, s2.x, s2.y), ..s2 },
                None => s2,
            };
            if let Some(p) = s3.fill_style0 {
                lemma_pending_ids(s3.fills, p.style_id, p.points.reverse(), true, s3.fill_styles.len());
            }
            let s4 = match sc.fill_style_0 {
                Some(fs) => ConverterState { fills: fill0_merged(s3), fill_style0: activated(fs, s3.x, s3.y), ..s3 },
                None => s3,
            };
            if let Some(p) = s4.line_style {
                lemma_pending_ids(s4.strokes, p.style_id, p.points, false, s4.line_styles.len());
            }
        },
        _ => {},
    }
}

proof fn lemma_records_named<F, L>(s: ConverterState<F, L>, records: Seq<ShapeRecord<F, L>>)
    requires
        styles_named(s),
        style_refs_in_range(records, s.fill_styles.len(), s.line_styles.len()),
    ensures
        styles_named(records_spec(s, records)),
    decreases records.len(),
{
    if records.len() > 0 {
        lemma_record_named(s, records[0]);
        let t = record_spec(s, records[0]);
        match records[0] {
            ShapeRecord::StyleChange(sc) => {
                assert(t.fill_styles.len() == match sc.new_styles {
                    Some(st) => st.fill_styles@.len(),
                    None => s.fill_styles.len(),
                });
                assert(t.line_styles.len() == match sc.new_styles {
                    Some(st) => st.line_styles@.len(),
                    None => s.line_styles.len(),
                });
            },
            _ => {},
        }
        lemma_records_named(t, records.skip(1));
    }
}

/// A shape whose style indices all name styles of the list in effect
/// converts without looking up a missing style.
pub proof fn law_named_styles_are_found<F, L>(shape: Shape<F, L>)
    requires
        style_refs_in_range(shape.shape@, shape.styles.fill_styles@.len(), shape.styles.line_styles@.len()),
    ensures
        converted(shape).styles_found,
{
    lemma_records_named(initial_state(shape.styles), shape.shape@);
    lemma_flush_paths_named(records_spec(initial_state(shape.styles), shape.shape@));
}

proof fn lemma_fill_draws_are_fills<F, L>(paths: Seq<(u32, Seq<Seq<Point>>)>, styles: Seq<F>)
    ensures
        fill_draws::<F, L>(paths, styles).len() == paths.len(),
        forall|i: int| 0 <= i < fill_draws::<F, L>(paths, styles).len() ==> (#[trigger] fill_draws::<F, L>(paths, styles)[i]) is Fill,
    decreases paths.len(),
{
    if paths.len() > 0 {
        lemma_fill_draws_are_fills::<F, L>(paths.skip(1), styles);
        let rest = fill_draws::<F, L>(paths.skip(1), styles);
        let all = fill_draws::<F, L>(paths, styles);
        assert forall|i: int| 0 <= i < all.len() implies (#[trigger] all[i]) is Fill by {
            if i > 0 {
                assert(all[i] == rest[i - 1]);
            }
        }
    }
}

proof fn lemma_stroke_draws_are_strokes<F, L>(paths: Seq<(u32, Seq<Seq<Point>>)>, styles: Seq<L>)
    ensures
        forall|i: int| 0 <= i < stroke_draws::<F, L>(paths, styles).len() ==> (#[trigger] stroke_draws::<F, L>(paths, styles)[i]) is Stroke,
    decreases paths.len(),
{
    if paths.len() > 0 {
        lemma_stroke_draws_are_strokes::<F, L>(paths.skip(1), styles);
        let rest = stroke_draws::<F, L>(paths.skip(1), styles);
        let all = stroke_draws::<F, L>(paths, styles);
        let head: Seq<DrawPathView<F, L>> = if paths[0].1.len() > 0 {
            seq![DrawPathView::Stroke { style: styles[paths[0].0 - 1], commands: path_commands(paths[0].1) }]
        } else {
            Seq::empty()
        };
        assert(all == head + rest);
        assert forall|i: int| 0 <= i < all.len() implies (#[trigger] all[i]) is Stroke by {
            if i >= head.len() {
                assert(all[i] == rest[i - head.len()]);
            }
        }
    }
}

/// Strokes are drawn on top of the fills of their layer: the paths a
/// layer adds are one fill for each pending fill style, then the strokes.
pub proof fn law_layer_fills_before_strokes<F, L>(s: ConverterState<F, L>)
    ensures
        ({
            let before = flush_paths_spec(s).commands.len();
            let out = flush_layer_spec(s).commands;
            let fills = flush_paths_spec(s).fills.len();
            &&& out.subrange(0, before as int) == flush_paths_spec(s).commands
            &&& forall|i: int| before <= i < before + fills ==> (#[trigger] out[i]) is Fill
            &&& forall|i: int| before + fills <= i < out.len() ==> (#[trigger] out[i]) is Stroke
        }),
{
    let t = flush_paths_spec(s);
    lemma_fill_draws_are_fills::<F, L>(t.fills, t.fill_styles);
    lemma_stroke_draws_are_strokes::<F, L>(t.strokes, t.line_styles);
    let out = flush_layer_spec(s).commands;
    let f = fill_draws::<F, L>(t.fills, t.fill_styles);
    let st = stroke_draws::<F, L>(t.strokes, t.line_styles);
    assert(out == t.commands + f + st);
    assert(out.subrange(0, t.commands.len() as int) =~= t.commands);
    assert forall|i: int| t.commands.len() <= i < t.commands.len() + t.fills.len() implies (#[trigger] out[i]) is Fill by {
        assert(out[i] == f[i - t.commands.len()]);
    }
    assert forall|i: int| t.commands.len() + t.fills.len() <= i < out.len() implies (#[trigger] out[i]) is Stroke by {
        assert(out[i] == st[i - t.commands.len() - f.len()]);
    }
}


/// `s` is `a` followed by `b`, with the end of `a` at the start of `b`:
/// one path that runs through both without a gap.
pub open spec fn links_through(s: Seq<Point>, a: Seq<Point>, b: Seq<Point>) -> bool {
    s == a + b && same_position(a.last(), b[0])
}

/// Linking two segments gives one continuous path made of both: one of
/// them followed by the other, the end of the first at the start of the
/// second, and only an undirected (stroke) segment is ever reversed to
/// meet. Two segments link exactly when one ends where the other starts,
/// or, undirected, when they end or start at the same position.
pub proof fn law_linking_is_continuous(points: Seq<Point>, other: Seq<Point>, directed: bool)
    requires
        points.len() >= 1,
        other.len() >= 1,
    ensures
        joined(points, other, directed) matches Some(s) ==> {
            ||| links_through(s, points, other)
            ||| links_through(s, other, points)
            ||| !directed && links_through(s, points, other.reverse())
            ||| !directed && links_through(s, other.reverse(), points)
        },
        joined(points, other, directed) is Some <==> {
            ||| same_position(other.last(), points[0])
            ||| same_position(points.last(), other[0])
            ||| !directed && same_position(points.last(), other.last())
            ||| !directed && same_position(points[0], other[0])
        },
{
    let r = other.reverse();
    assert(r[0] == other[other.len() - 1]);
    assert(r[r.len() - 1] == other[0]);
}
} // verus!
