//! The canvas: what the pointer does to the viewport, which node a click
//! selects, and what is drawn of the graph.

use crate::graphapp::{GMessage, GraphState, CYCLE};
use crate::viewport::{
    all_wf, bounding_box, canvas_location_to_graph_location, clamp, clamp_coord, graph_bounds,
    graph_location_to_canvas_location, has_room, in_graph, in_range, nearest_to, on_canvas,
    picks, scale, Point, Rectangle, LIMIT, UNIT, ZOOM_LIMIT,
};
use vstd::prelude::*;

verus! {

/// A scroll by this much doubles the zoom factor, and a scroll back by as
/// much brings it to nothing.
pub const SCROLL_SPAN: i64 = 30_000;

/// The state of the canvas: where the pointer is, whether it drags, and the
/// viewport: padding, zoom factor with its bounds, and pan.
#[derive(Clone, Copy, Debug, PartialEq, Eq)]
pub struct CanvasState {
    pub cursor_position: Point,
    pub left_button_pressed: bool,
    pub position_drag_last: Point,
    pub point_radius: i64,
    pub padding: i64,
    pub zoom_level: i64,
    pub zoom_min: i64,
    pub zoom_max: i64,
    pub pick_radius: i64,
    pub transpose_x: i64,
    pub transpose_y: i64,
}

impl CanvasState {
    /// The points and the pan are within `LIMIT`, the lengths are not
    /// negative, and the zoom factor is within its bounds.
    pub open spec fn wf(&self) -> bool {
        &&& self.cursor_position.wf()
        &&& self.position_drag_last.wf()
        &&& 0 <= self.point_radius <= LIMIT
        &&& 0 <= self.padding <= LIMIT
        &&& 0 < self.zoom_min <= self.zoom_level <= self.zoom_max <= ZOOM_LIMIT
        &&& 0 <= self.pick_radius <= LIMIT
        &&& in_range(self.transpose_x as int)
        &&& in_range(self.transpose_y as int)
    }
}

impl Default for CanvasState {
    /// The pointer at rest at the origin, nodes of three pixels, a padding
    /// of twenty, the zoom factor one within a tenth and three, a pick
    /// radius of a hundred units, and no pan.
    fn default() -> (state: CanvasState)
        ensures
            state.wf(),
            state == (CanvasState {
                cursor_position: Point { x: 0, y: 0 },
                left_button_pressed: false,
                position_drag_last: Point { x: 0, y: 0 },
                point_radius: 3_000,
                padding: 20_000,
                zoom_level: 1_000,
                zoom_min: 100,
                zoom_max: 3_000,
                pick_radius: 100_000,
                transpose_x: 0,
                transpose_y: 0,
            }),
    {
        CanvasState {
            cursor_position: Point { x: 0, y: 0 },
            left_button_pressed: false,
            position_drag_last: Point { x: 0, y: 0 },
            point_radius: 3_000,
            padding: 20_000,
            zoom_level: 1_000,
            zoom_min: 100,
            zoom_max: 3_000,
            pick_radius: 100_000,
            transpose_x: 0,
            transpose_y: 0,
        }
    }
}

/// What the pointer did.
#[derive(Clone, Copy, Debug, PartialEq, Eq)]
pub enum Pointer {
    /// The left button went down, with the pointer at `position`.
    Pressed { position: Point },
    /// The left button came up.
    Released,
    /// The pointer went to `position`.
    Moved { position: Point },
    /// The wheel turned by `delta` thousandths of a line, upwards above
    /// zero, with the pointer at `position`.
    Scrolled { delta: i64, position: Point },
    /// Anything else.
    Other,
}

impl Pointer {
    /// The position and the scroll are within `LIMIT`.
    pub open spec fn wf(&self) -> bool {
        match self {
            Pointer::Pressed { position } => position.wf(),
            Pointer::Released => true,
            Pointer::Moved { position } => position.wf(),
            Pointer::Scrolled { delta, position } => in_range(*delta as int) && position.wf(),
            Pointer::Other => true,
        }
    }
}

/// Whether the canvas took the event.
#[derive(Clone, Copy, Debug, PartialEq, Eq)]
pub enum Status {
    Captured,
    Ignored,
}

/// How the pointer is shown.
#[derive(Clone, Copy, Debug, PartialEq, Eq)]
pub enum Interaction {
    Idle,
    Grabbing,
}

/// The zoom factor after a scroll: the factor times one and `delta` over
/// `SCROLL_SPAN`, kept within its bounds.
pub open spec fn zoomed(zoom: int, delta: int, zoom_min: int, zoom_max: int) -> int {
    let wanted = zoom * (SCROLL_SPAN + delta) / (SCROLL_SPAN as int);
    if wanted < zoom_min {
        zoom_min
    } else if wanted > zoom_max {
        zoom_max
    } else {
        wanted
    }
}

/// The pan along one axis after the zoom factor went from `zoom` to
/// `new_zoom` with the pointer `from_center` off the middle of the surface:
/// it moves by that distance times the change of the factor over the square
/// of the factor before.
pub open spec fn anchored(transpose: int, from_center: int, zoom: int, new_zoom: int) -> int {
    clamp(transpose + from_center * ((new_zoom - zoom) * UNIT) / (zoom * zoom))
}

/// The middle of a rectangle.
pub open spec fn center(bound: Rectangle) -> Point {
    Point { x: (bound.x + bound.width / 2) as i64, y: (bound.y + bound.height / 2) as i64 }
}

/// The state of the canvas after an event.
pub open spec fn after_event(state: CanvasState, event: Pointer, bound: Rectangle) -> CanvasState {
    match event {
        Pointer::Pressed { position } => CanvasState {
            left_button_pressed: true,
            position_drag_last: position,
            ..state
        },
        Pointer::Released => CanvasState { left_button_pressed: false, ..state },
        Pointer::Moved { position } => if state.left_button_pressed {
            CanvasState {
                cursor_position: position,
                position_drag_last: position,
                transpose_x: clamp(
                    state.transpose_x - (state.position_drag_last.x - position.x),
                ) as i64,
                transpose_y: clamp(
                    state.transpose_y - (state.position_drag_last.y - position.y),
                ) as i64,
                ..state
            }
        } else {
            CanvasState { cursor_position: position, ..state }
        },
        Pointer::Scrolled { delta, position } => {
            let zoom = zoomed(
                state.zoom_level as int,
                delta as int,
                state.zoom_min as int,
                state.zoom_max as int,
            );
            CanvasState {
                zoom_level: zoom as i64,
                transpose_x: anchored(
                    state.transpose_x as int,
                    position.x - center(bound).x,
                    state.zoom_level as int,
                    zoom,
                ) as i64,
                transpose_y: anchored(
                    state.transpose_y as int,
                    position.y - center(bound).y,
                    state.zoom_level as int,
                    zoom,
                ) as i64,
                ..state
            }
        },
        Pointer::Other => state,
    }
}

/// Whether the canvas takes an event: all but those it does not know.
pub open spec fn status_of(event: Pointer) -> Status {
    if event is Other {
        Status::Ignored
    } else {
        Status::Captured
    }
}

/// `picked` is the node that a point of the surface selects: the node that
/// the point's place in the layout picks within the pick radius, and none
/// where the surface has no room inside the padding.
pub open spec fn selects(
    positions: Seq<Point>,
    state: CanvasState,
    position: Point,
    bound: Rectangle,
    picked: Option<usize>,
) -> bool {
    if has_room(bound, state.padding) {
        picks(
            positions,
            in_graph(
                bounding_box(positions),
                position,
                state.padding,
                bound,
                state.zoom_level,
                state.transpose_x,
                state.transpose_y,
            ),
            state.pick_radius as int,
            picked,
        )
    } else {
        picked is None
    }
}

/// What is shown: the name of each node and where it stands in the layout,
/// which nodes each edge joins, and what the application has selected.
#[derive(Clone, Debug, PartialEq, Eq)]
pub struct GraphDisplay<'a> {
    pub names: &'a Vec<String>,
    pub positions: Vec<Point>,
    pub edges: Vec<(usize, usize)>,
    pub graph_state: GraphState,
}

impl<'a> GraphDisplay<'a> {
    /// Each node has a name and a position within `LIMIT`, each edge joins
    /// two of the nodes, and the highlight is within its cycle.
    pub open spec fn wf(&self) -> bool {
        &&& self.names@.len() == self.positions@.len()
        &&& all_wf(self.positions@)
        &&& forall|k: int|
            0 <= k < self.edges@.len() ==> (#[trigger] self.edges@[k]).0 < self.positions@.len()
                && self.edges@[k].1 < self.positions@.len()
        &&& self.graph_state.visualization_frac < CYCLE
    }

    /// A display of these nodes and edges.
    pub fn new(
        names: &'a Vec<String>,
        positions: Vec<Point>,
        edges: Vec<(usize, usize)>,
        graph_state: GraphState,
    ) -> (display: GraphDisplay<'a>)
        ensures
            display.names == names,
            display.positions == positions,
            display.edges == edges,
            display.graph_state == graph_state,
    {
        GraphDisplay { names, positions, edges, graph_state }
    }

    /// The node that a point of the surface selects.
    pub fn nearest_node(&self, state: &CanvasState, position: Point, bound: Rectangle) -> (picked:
        Option<usize>)
        requires
            self.wf(),
            state.wf(),
            position.wf(),
            bound.wf(),
        ensures
            selects(self.positions@, *state, position, bound, picked),
    {
        let bounding_rectangle = graph_bounds(&self.positions);
        match canvas_location_to_graph_location(
            &bounding_rectangle,
            position,
            state.padding,
            &bound,
            state.zoom_level,
            state.transpose_x,
            state.transpose_y,
        ) {
            Some(clicked_point) => nearest_to(&self.positions, clicked_point, state.pick_radius),
            None => None,
        }
    }

    /// How the pointer is shown: grabbing while it drags.
    pub fn mouse_interaction(&self, state: &CanvasState) -> (interaction: Interaction)
        ensures
            interaction == if state.left_button_pressed {
                Interaction::Grabbing
            } else {
                Interaction::Idle
            },
    {
        if state.left_button_pressed {
            Interaction::Grabbing
        } else {
            Interaction::Idle
        }
    }

    /// Takes an event of the pointer.
    ///
    /// A press starts a drag and selects: the application is told the node
    /// that the pointer's place selects, or that it selects none. A move
    /// pans by the way the pointer went since the press or the last move of
    /// the drag. A release ends the drag and leaves the selection. A scroll
    /// changes the zoom factor within its bounds and pans so that the zoom
    /// is about the pointer. Nothing else is told to the application.
    pub fn update(&self, state: &mut CanvasState, event: Pointer, bound: Rectangle) -> (taken: (
        Status,
        Option<GMessage>,
    ))
        requires
            self.wf(),
            old(state).wf(),
            event.wf(),
            bound.wf(),
        ensures
            final(state).wf(),
            *final(state) == after_event(*old(state), event, bound),
            taken.0 == status_of(event),
            match event {
                Pointer::Pressed { position } => taken.1 matches Some(GMessage::GraphClick(picked))
                    && selects(self.positions@, *old(state), position, bound, picked),
                _ => taken.1 is None,
            },
    {
        match event {
            Pointer::Pressed { position } => {
                let picked = self.nearest_node(state, position, bound);
                state.left_button_pressed = true;
                state.position_drag_last = position;
                (Status::Captured, Some(GMessage::GraphClick(picked)))
            },
            Pointer::Released => {
                state.left_button_pressed = false;
                (Status::Captured, None)
            },
            Pointer::Moved { position } => {
                state.cursor_position = position;
                if state.left_button_pressed {
                    state.transpose_x = clamp_coord(
                        state.transpose_x as i128 - (state.position_drag_last.x as i128
                            - position.x as i128),
                    );
                    state.transpose_y = clamp_coord(
                        state.transpose_y as i128 - (state.position_drag_last.y as i128
                            - position.y as i128),
                    );
                    state.position_drag_last = position;
                }
                (Status::Captured, None)
            },
            Pointer::Scrolled { delta, position } => {
                let zoom = state.zoom_level;
                let new_zoom = zoom_by(zoom, delta, state.zoom_min, state.zoom_max);
                let middle_x: i64 = bound.x + bound.width / 2;
                let middle_y: i64 = bound.y + bound.height / 2;
                state.transpose_x = anchor(state.transpose_x, position.x - middle_x, zoom, new_zoom);
                state.transpose_y = anchor(state.transpose_y, position.y - middle_y, zoom, new_zoom);
                state.zoom_level = new_zoom;
                (Status::Captured, None)
            },
            Pointer::Other => (Status::Ignored, None),
        }
    }
}

/// `zoomed`, computed.
fn zoom_by(zoom: i64, delta: i64, zoom_min: i64, zoom_max: i64) -> (new_zoom: i64)
    requires
        0 < zoom_min <= zoom <= zoom_max <= ZOOM_LIMIT,
        in_range(delta as int),
    ensures
        new_zoom == zoomed(zoom as int, delta as int, zoom_min as int, zoom_max as int),
        zoom_min <= new_zoom <= zoom_max,
{
    let wanted = scale(zoom as i128, SCROLL_SPAN as i128 + delta as i128, SCROLL_SPAN as i128);
    if wanted < zoom_min as i128 {
        zoom_min
    } else if wanted > zoom_max as i128 {
        zoom_max
    } else {
        wanted as i64
    }
}

/// `anchored`, computed.
fn anchor(transpose: i64, from_center: i64, zoom: i64, new_zoom: i64) -> (moved: i64)
    requires
        in_range(transpose as int),
        -2 * LIMIT <= from_center <= 2 * LIMIT,
        0 < zoom <= ZOOM_LIMIT,
        0 < new_zoom <= ZOOM_LIMIT,
    ensures
        moved == anchored(transpose as int, from_center as int, zoom as int, new_zoom as int),
        in_range(moved as int),
{
    assert(0 < zoom * zoom <= 1_000_000_000_000) by (nonlinear_arith)
        requires
            0 < zoom <= 1_000_000,
    ;
    let change: i128 = (new_zoom as i128 - zoom as i128) * 1000;
    let square: i128 = (zoom as i128) * (zoom as i128);
    let step = scale(from_center as i128, change, square);
    clamp_coord(transpose as i128 + step)
}

/// The zoom factor stays within its bounds whatever the scroll. A scroll
/// upwards does not lower it and a scroll downwards does not raise it: at
/// the upper bound a scroll upwards leaves it where it is, and so does a
/// scroll downwards at the lower bound.
pub proof fn lemma_zoom_bounded(zoom: int, delta: int, zoom_min: int, zoom_max: int)
    requires
        0 < zoom_min <= zoom <= zoom_max,
    ensures
        zoom_min <= zoomed(zoom, delta, zoom_min, zoom_max) <= zoom_max,
        delta >= 0 ==> zoomed(zoom, delta, zoom_min, zoom_max) >= zoom,
        delta <= 0 ==> zoomed(zoom, delta, zoom_min, zoom_max) <= zoom,
        delta >= 0 && zoom == zoom_max ==> zoomed(zoom, delta, zoom_min, zoom_max) == zoom,
        delta <= 0 && zoom == zoom_min ==> zoomed(zoom, delta, zoom_min, zoom_max) == zoom,
{
    let span = SCROLL_SPAN as int;
    vstd::arithmetic::div_mod::lemma_div_multiples_vanish(zoom, span);
    assert(zoom * span == span * zoom) by (nonlinear_arith);
    if delta >= 0 {
        assert(zoom * span <= zoom * (span + delta)) by (nonlinear_arith)
            requires
                zoom > 0,
                delta >= 0,
        ;
        vstd::arithmetic::div_mod::lemma_div_is_ordered(zoom * span, zoom * (span + delta), span);
    }
    if delta <= 0 {
        assert(zoom * (span + delta) <= zoom * span) by (nonlinear_arith)
            requires
                zoom > 0,
                delta <= 0,
        ;
        vstd::arithmetic::div_mod::lemma_div_is_ordered(zoom * (span + delta), zoom * span, span);
    }
}

/// A scroll that leaves the zoom factor where it is leaves the viewport as
/// it is: so at the upper bound of the zoom factor a scroll upwards changes
/// nothing.
pub proof fn lemma_scroll_at_bound(state: CanvasState, delta: i64, position: Point, bound: Rectangle)
    requires
        state.wf(),
        delta >= 0,
        state.zoom_level == state.zoom_max,
    ensures
        after_event(state, Pointer::Scrolled { delta, position }, bound) == state,
{
    lemma_zoom_bounded(
        state.zoom_level as int,
        delta as int,
        state.zoom_min as int,
        state.zoom_max as int,
    );
    let zoom = state.zoom_level as int;
    let cx = position.x - center(bound).x;
    let cy = position.y - center(bound).y;
    assert(cx * ((zoom - zoom) * UNIT) == 0) by (nonlinear_arith);
    assert(cy * ((zoom - zoom) * UNIT) == 0) by (nonlinear_arith);
    assert(zoom * zoom > 0) by (nonlinear_arith)
        requires
            zoom > 0,
    ;
    assert(0int / (zoom * zoom) == 0) by (nonlinear_arith)
        requires
            zoom * zoom > 0,
    ;
}

/// A label is drawn where its text is larger than this.
pub const LABEL_SIZE: i64 = 8_000;

/// The colour of what is drawn, by its part in the picture.
#[derive(Clone, Copy, Debug, PartialEq, Eq)]
pub enum Shade {
    /// Nodes and edges away from the selection.
    Primary,
    /// The selected node, its edges and the nodes they lead to.
    Text,
    /// The highlight that travels along the edges of the selected node.
    Success,
}

/// One thing to draw on the surface.
#[derive(Clone, Debug, PartialEq, Eq)]
pub enum Primitive {
    Circle { center: Point, radius: i64, shade: Shade },
    /// A text, written from `position` on.
    Label { content: String, position: Point, size: i64, shade: Shade },
    Line { from: Point, to: Point, shade: Shade },
}

/// What a `Primitive` holds, its text as a plain sequence.
pub ghost enum Drawn {
    Circle { center: Point, radius: i64, shade: Shade },
    Label { content: Seq<char>, position: Point, size: i64, shade: Shade },
    Line { from: Point, to: Point, shade: Shade },
}

impl View for Primitive {
    type V = Drawn;

    open spec fn view(&self) -> Drawn {
        match self {
            Primitive::Circle { center, radius, shade } => Drawn::Circle {
                center: *center,
                radius: *radius,
                shade: *shade,
            },
            Primitive::Label { content, position, size, shade } => Drawn::Label {
                content: content@,
                position: *position,
                size: *size,
                shade: *shade,
            },
            Primitive::Line { from, to, shade } => Drawn::Line {
                from: *from,
                to: *to,
                shade: *shade,
            },
        }
    }
}

impl DeepView for Primitive {
    type V = Drawn;

    open spec fn deep_view(&self) -> Drawn {
        self@
    }
}

/// The edge shows that `node` belongs to the selection `active`: it joins
/// `node` to the selected node, or `node` is the selected node.
pub open spec fn edge_lights(edge: (usize, usize), active: usize, node: usize) -> bool {
    ||| edge.0 == node && (edge.1 == active || node == active)
    ||| edge.1 == node && (edge.0 == active || node == active)
}

/// One of the first `k` edges shows that `node` belongs to the selection.
pub open spec fn lit_upto(edges: Seq<(usize, usize)>, active: usize, node: usize, k: int) -> bool {
    exists|j: int| 0 <= j < k && edge_lights(#[trigger] edges[j], active, node)
}

/// The node is drawn as part of the selection: a node is selected, and an
/// edge joins this node to it, or this node is the selected one and has an
/// edge.
pub open spec fn node_lit(edges: Seq<(usize, usize)>, active: Option<usize>, node: usize) -> bool {
    active matches Some(a) && lit_upto(edges, a, node, edges.len() as int)
}

/// The edge is drawn as part of the selection: it has the selected node at
/// one end.
pub open spec fn edge_lit(edge: (usize, usize), active: Option<usize>) -> bool {
    active matches Some(a) && (edge.0 == a || edge.1 == a)
}

/// The colour of a node or an edge.
pub open spec fn shade_of(lit: bool) -> Shade {
    if lit {
        Shade::Text
    } else {
        Shade::Primary
    }
}

/// The radius of a node's circle: nine tenths of the point radius, and a
/// tenth for each unit of the zoom factor.
pub open spec fn node_radius(point_radius: int, zoom: int) -> int {
    point_radius * (9 * UNIT + zoom) / (10 * UNIT)
}

/// The radius of the highlight: six tenths of the point radius, and a tenth
/// for each unit of the zoom factor.
pub open spec fn marker_radius(point_radius: int, zoom: int) -> int {
    point_radius * (6 * UNIT + zoom) / (10 * UNIT)
}

/// The size of a label's text: one and a half point radius for each unit
/// of the zoom factor.
pub open spec fn text_size(point_radius: int, zoom: int) -> int {
    3 * point_radius * zoom / (2 * UNIT)
}

/// The coordinate at `frac` parts in `CYCLE` of the way from `from` to `to`.
pub open spec fn along(from: int, to: int, frac: int) -> int {
    clamp((to - from) * frac / (CYCLE as int) + from)
}

impl<'a> GraphDisplay<'a> {
    /// Where the node `i` stands on the surface.
    pub open spec fn node_at(&self, state: CanvasState, bounds: Rectangle, i: int) -> Point {
        on_canvas(
            bounding_box(self.positions@),
            self.positions@[i],
            state.padding,
            bounds,
            state.zoom_level,
            state.transpose_x,
            state.transpose_y,
        )
    }

    /// What is drawn of the node `i`: its circle, and its name beside it
    /// where the text is large enough.
    pub open spec fn node_primitives(&self, state: CanvasState, bounds: Rectangle, i: int) -> Seq<
        Drawn,
    > {
        let at = self.node_at(state, bounds, i);
        let shade = shade_of(node_lit(self.edges@, self.graph_state.active_node, i as usize));
        let size = text_size(state.point_radius as int, state.zoom_level as int);
        let circle = Drawn::Circle {
            center: at,
            radius: node_radius(state.point_radius as int, state.zoom_level as int) as i64,
            shade,
        };
        if size > LABEL_SIZE {
            seq![
                circle,
                Drawn::Label {
                    content: self.names@[i]@,
                    position: Point { x: (at.x + state.point_radius + UNIT) as i64, y: at.y },
                    size: size as i64,
                    shade,
                },
            ]
        } else {
            seq![circle]
        }
    }

    /// What is drawn of the edge `k`: its line, and on an edge of the
    /// selected node the highlight on its way along the line.
    pub open spec fn edge_primitives(&self, state: CanvasState, bounds: Rectangle, k: int) -> Seq<
        Drawn,
    > {
        let edge = self.edges@[k];
        let from = self.node_at(state, bounds, edge.0 as int);
        let to = self.node_at(state, bounds, edge.1 as int);
        let lit = edge_lit(edge, self.graph_state.active_node);
        let frac = self.graph_state.visualization_frac as int;
        let line = Drawn::Line { from, to, shade: shade_of(lit) };
        if lit {
            seq![
                line,
                Drawn::Circle {
                    center: Point {
                        x: along(from.x as int, to.x as int, frac) as i64,
                        y: along(from.y as int, to.y as int, frac) as i64,
                    },
                    radius: marker_radius(state.point_radius as int, state.zoom_level as int) as i64,
                    shade: Shade::Success,
                },
            ]
        } else {
            seq![line]
        }
    }

    /// What is drawn of the first `n` nodes.
    pub open spec fn nodes_drawn(&self, state: CanvasState, bounds: Rectangle, n: int) -> Seq<
        Drawn,
    >
        decreases n,
    {
        if n <= 0 {
            Seq::empty()
        } else {
            self.nodes_drawn(state, bounds, n - 1) + self.node_primitives(state, bounds, n - 1)
        }
    }

    /// What is drawn of the first `n` edges.
    pub open spec fn edges_drawn(&self, state: CanvasState, bounds: Rectangle, n: int) -> Seq<
        Drawn,
    >
        decreases n,
    {
        if n <= 0 {
            Seq::empty()
        } else {
            self.edges_drawn(state, bounds, n - 1) + self.edge_primitives(state, bounds, n - 1)
        }
    }

    /// The picture: the nodes in their order, then the edges in theirs.
    pub open spec fn drawing(&self, state: CanvasState, bounds: Rectangle) -> Seq<Drawn> {
        self.nodes_drawn(state, bounds, self.positions@.len() as int) + self.edges_drawn(
            state,
            bounds,
            self.edges@.len() as int,
        )
    }

    /// For each node, whether it is drawn as part of the selection.
    fn lit_nodes(&self) -> (lit: Vec<bool>)
        requires
            self.wf(),
        ensures
            lit@.len() == self.positions@.len(),
            forall|i: int|
                0 <= i < lit@.len() ==> #[trigger] lit@[i] == node_lit(
                    self.edges@,
                    self.graph_state.active_node,
                    i as usize,
                ),
    {
        let n = self.positions.len();
        let mut lit: Vec<bool> = Vec::new();
        let mut i: usize = 0;
        while i < n
            invariant
                i <= n,
                lit@.len() == i,
                forall|j: int| 0 <= j < i ==> !(#[trigger] lit@[j]),
            decreases n - i,
        {
            lit.push(false);
            i += 1;
        }
        match self.graph_state.active_node {
            None => {},
            Some(a) => {
                let m = self.edges.len();
                let mut k: usize = 0;
                while k < m
                    invariant
                        k <= m,
                        m == self.edges@.len(),
                        n == self.positions@.len(),
                        self.wf(),
                        lit@.len() == n,
                        forall|j: int|
                            0 <= j < n ==> #[trigger] lit@[j] == lit_upto(
                                self.edges@,
                                a,
                                j as usize,
                                k as int,
                            ),
                    decreases m - k,
                {
                    let edge = self.edges[k];
                    if edge.0 == a || edge.1 == a {
                        lit.set(edge.0, true);
                        lit.set(edge.1, true);
                    }
                    proof {
                        assert forall|j: int| 0 <= j < n implies #[trigger] lit@[j] == lit_upto(
                            self.edges@,
                            a,
                            j as usize,
                            k + 1,
                        ) by {
                            let node = j as usize;
                            if edge_lights(edge, a, node) {
                                assert(edge_lights(self.edges@[k as int], a, node));
                            } else if lit_upto(self.edges@, a, node, k + 1) {
                                let w = choose|w: int|
                                    0 <= w < k + 1 && edge_lights(
                                        #[trigger] self.edges@[w],
                                        a,
                                        node,
                                    );
                                assert(w < k);
                            }
                        }
                    }
                    k += 1;
                }
            },
        }
        lit
    }

    /// The picture of the graph as it stands: for each node its circle, in
    /// the colour of the selection where an edge joins it to the selected
    /// node, with its name where the zoom makes the text large enough;
    /// then for each edge its line, and on the edges of the selected node
    /// the highlight.
    pub fn draw(&self, state: &CanvasState, bounds: Rectangle) -> (picture: Vec<Primitive>)
        requires
            self.wf(),
            state.wf(),
            bounds.wf(),
        ensures
            picture.deep_view() == self.drawing(*state, bounds),
    {
        let frame = graph_bounds(&self.positions);
        let lit = self.lit_nodes();
        let radius = node_radius_of(state.point_radius, state.zoom_level);
        let marker = marker_radius_of(state.point_radius, state.zoom_level);
        let size = text_size_of(state.point_radius, state.zoom_level);
        let mut picture: Vec<Primitive> = Vec::new();
        let n = self.positions.len();
        let mut i: usize = 0;
        while i < n
            invariant
                i <= n,
                n == self.positions@.len(),
                self.wf(),
                state.wf(),
                bounds.wf(),
                frame.wf(),
                frame == bounding_box(self.positions@),
                lit@.len() == n,
                forall|j: int|
                    0 <= j < n ==> #[trigger] lit@[j] == node_lit(
                        self.edges@,
                        self.graph_state.active_node,
                        j as usize,
                    ),
                radius == node_radius(state.point_radius as int, state.zoom_level as int),
                size == text_size(state.point_radius as int, state.zoom_level as int),
                picture.deep_view() == self.nodes_drawn(*state, bounds, i as int),
            decreases n - i,
        {
            let at = graph_location_to_canvas_location(
                &frame,
                self.positions[i],
                state.padding,
                &bounds,
                state.zoom_level,
                state.transpose_x,
                state.transpose_y,
            );
            let shade = if lit[i] {
                Shade::Text
            } else {
                Shade::Primary
            };
            picture.push(Primitive::Circle { center: at, radius, shade });
            if size > LABEL_SIZE {
                picture.push(
                    Primitive::Label {
                        content: self.names[i].clone(),
                        position: Point { x: at.x + state.point_radius + UNIT, y: at.y },
                        size,
                        shade,
                    },
                );
            }
            i += 1;
        }
        let ghost nodes = picture.deep_view();
        let m = self.edges.len();
        let mut k: usize = 0;
        while k < m
            invariant
                k <= m,
                m == self.edges@.len(),
                self.wf(),
                state.wf(),
                bounds.wf(),
                frame.wf(),
                frame == bounding_box(self.positions@),
                marker == marker_radius(state.point_radius as int, state.zoom_level as int),
                picture.deep_view() == nodes + self.edges_drawn(*state, bounds, k as int),
            decreases m - k,
        {
            let edge = self.edges[k];
            let from = graph_location_to_canvas_location(
                &frame,
                self.positions[edge.0],
                state.padding,
                &bounds,
                state.zoom_level,
                state.transpose_x,
                state.transpose_y,
            );
            let to = graph_location_to_canvas_location(
                &frame,
                self.positions[edge.1],
                state.padding,
                &bounds,
                state.zoom_level,
                state.transpose_x,
                state.transpose_y,
            );
            let lit = match self.graph_state.active_node {
                Some(a) => edge.0 == a || edge.1 == a,
                None => false,
            };
            let ghost before = picture.deep_view();
            if lit {
                let frac = self.graph_state.visualization_frac;
                picture.push(Primitive::Line { from, to, shade: Shade::Text });
                picture.push(
                    Primitive::Circle {
                        center: Point {
                            x: along_of(from.x, to.x, frac),
                            y: along_of(from.y, to.y, frac),
                        },
                        radius: marker,
                        shade: Shade::Success,
                    },
                );
            } else {
                picture.push(Primitive::Line { from, to, shade: Shade::Primary });
            }
            assert(picture.deep_view() =~= before + self.edge_primitives(
                *state,
                bounds,
                k as int,
            ));
            k += 1;
        }
        picture
    }
}

/// `node_radius`, computed.
fn node_radius_of(point_radius: i64, zoom: i64) -> (r: i64)
    requires
        0 <= point_radius <= LIMIT,
        0 < zoom <= ZOOM_LIMIT,
    ensures
        r == node_radius(point_radius as int, zoom as int),
{
    assert(0 <= point_radius * (9000 + zoom) <= 1_009_000_000_000_000_000) by (nonlinear_arith)
        requires
            0 <= point_radius <= 1_000_000_000_000,
            0 < zoom <= 1_000_000,
    ;
    point_radius * (9000 + zoom) / 10000
}

/// `marker_radius`, computed.
fn marker_radius_of(point_radius: i64, zoom: i64) -> (r: i64)
    requires
        0 <= point_radius <= LIMIT,
        0 < zoom <= ZOOM_LIMIT,
    ensures
        r == marker_radius(point_radius as int, zoom as int),
{
    assert(0 <= point_radius * (6000 + zoom) <= 1_006_000_000_000_000_000) by (nonlinear_arith)
        requires
            0 <= point_radius <= 1_000_000_000_000,
            0 < zoom <= 1_000_000,
    ;
    point_radius * (6000 + zoom) / 10000
}

/// `text_size`, computed.
fn text_size_of(point_radius: i64, zoom: i64) -> (r: i64)
    requires
        0 <= point_radius <= LIMIT,
        0 < zoom <= ZOOM_LIMIT,
    ensures
        r == text_size(point_radius as int, zoom as int),
{
    assert(0 <= 3 * point_radius * zoom <= 3_000_000_000_000_000_000) by (nonlinear_arith)
        requires
            0 <= point_radius <= 1_000_000_000_000,
            0 < zoom <= 1_000_000,
    ;
    3 * point_radius * zoom / 2000
}

/// `along`, computed.
fn along_of(from: i64, to: i64, frac: u32) -> (r: i64)
    requires
        in_range(from as int),
        in_range(to as int),
        frac < CYCLE,
    ensures
        r == along(from as int, to as int, frac as int),
{
    let step = scale(to as i128 - from as i128, frac as i128, CYCLE as i128);
    clamp_coord(step + from as i128)
}

} // verus!
