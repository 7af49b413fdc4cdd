//! The viewport: where the graph's layout stands on the drawing surface, and
//! which node a point of the surface picks.
//!
//! Lengths and coordinates are whole numbers of thousandths, of a layout
//! unit in the layout and of a pixel on the surface; a zoom factor is a
//! whole number of thousandths too. Quotients are rounded down, and a
//! coordinate that would pass `LIMIT` stops there.

use vstd::prelude::*;

verus! {

/// One layout unit, one pixel, and the zoom factor one.
pub const UNIT: i64 = 1000;

/// The greatest coordinate, to either side of zero.
pub const LIMIT: i64 = 1_000_000_000_000;

/// The greatest zoom factor.
pub const ZOOM_LIMIT: i64 = 1_000_000;

/// A point of the layout or of the surface.
#[derive(Clone, Copy, Debug, PartialEq, Eq, Structural)]
pub struct Point {
    pub x: i64,
    pub y: i64,
}

/// A rectangle by its corner of least coordinates and its size.
#[derive(Clone, Copy, Debug, PartialEq, Eq, Structural)]
pub struct Rectangle {
    pub x: i64,
    pub y: i64,
    pub width: i64,
    pub height: i64,
}

/// `v` is a coordinate.
pub open spec fn in_range(v: int) -> bool {
    -LIMIT <= v <= LIMIT
}

/// The coordinate nearest to `v`.
pub open spec fn clamp(v: int) -> int {
    if v < -LIMIT {
        -(LIMIT as int)
    } else if v > LIMIT {
        LIMIT as int
    } else {
        v
    }
}

/// The length by which a bounding box of this length is scaled: a box
/// without extent counts as one unit long.
pub open spec fn span(length: int) -> int {
    if length == 0 {
        UNIT as int
    } else {
        length
    }
}

impl Point {
    /// Both coordinates are within `LIMIT`.
    pub open spec fn wf(&self) -> bool {
        in_range(self.x as int) && in_range(self.y as int)
    }
}

impl Rectangle {
    /// The corner and the opposite corner are within `LIMIT`.
    pub open spec fn wf(&self) -> bool {
        &&& in_range(self.x as int)
        &&& in_range(self.y as int)
        &&& 0 <= self.width
        &&& 0 <= self.height
        &&& in_range(self.x + self.width)
        &&& in_range(self.y + self.height)
    }
}

/// Where the layout coordinate `p` stands on the surface, along one axis:
/// the distance from the start of the bounding box, scaled by the room that
/// the padding leaves on the surface over the length of the box and by the
/// zoom factor, then moved by the padding and the pan.
pub open spec fn screen_coord(
    p: int,
    graph_start: int,
    graph_length: int,
    canvas_start: int,
    canvas_length: int,
    padding: int,
    zoom: int,
    transpose: int,
) -> int {
    clamp(
        (p + (canvas_start - graph_start)) * ((canvas_length - 2 * padding) * zoom) / (span(
            graph_length,
        ) * UNIT) + padding + transpose,
    )
}

/// The layout coordinate that stands at the surface coordinate `s`, along
/// one axis: `screen_coord` the other way round. It takes a surface with
/// room inside the padding.
pub open spec fn layout_coord(
    s: int,
    graph_start: int,
    graph_length: int,
    canvas_start: int,
    canvas_length: int,
    padding: int,
    zoom: int,
    transpose: int,
) -> int {
    clamp(
        (s - padding - transpose) * (span(graph_length) * UNIT) / ((canvas_length - 2 * padding)
            * zoom) - (canvas_start - graph_start),
    )
}

/// The rounded-down quotient of a negative number, by way of a quotient of
/// positive numbers.
proof fn lemma_floor_of_negative(n: int, d: int)
    requires
        n < 0,
        d > 0,
    ensures
        -((-n + d - 1) / d) == n / d,
        n <= n / d <= 0,
{
    let q = n / d;
    let r = n % d;
    vstd::arithmetic::div_mod::lemma_fundamental_div_mod(n, d);
    vstd::arithmetic::div_mod::lemma_mod_bound(n, d);
    assert(-n + d - 1 == (-q) * d + (d - 1 - r)) by (nonlinear_arith)
        requires
            n == d * q + r,
    ;
    vstd::arithmetic::div_mod::lemma_fundamental_div_mod_converse(
        -n + d - 1,
        d,
        -q,
        d - 1 - r,
    );
    assert(n <= q <= 0) by (nonlinear_arith)
        requires
            n == d * q + r,
            0 <= r < d,
            n < 0,
            d > 0,
    ;
}

/// The rounded-down quotient of a number that is not negative.
proof fn lemma_floor_of_positive(n: int, d: int)
    requires
        n >= 0,
        d > 0,
    ensures
        0 <= n / d <= n,
{
    vstd::arithmetic::div_mod::lemma_fundamental_div_mod(n, d);
    vstd::arithmetic::div_mod::lemma_mod_bound(n, d);
    let q = n / d;
    let r = n % d;
    assert(0 <= q <= n) by (nonlinear_arith)
        requires
            n == d * q + r,
            0 <= r < d,
            n >= 0,
            d > 0,
    ;
}

/// `v * num / den`, rounded down.
pub(crate) fn scale(v: i128, num: i128, den: i128) -> (r: i128)
    requires
        -4_000_000_000_000 <= v <= 4_000_000_000_000,
        -4_000_000_000_000_000_000_000 <= num <= 4_000_000_000_000_000_000_000,
        0 < den <= 4_000_000_000_000_000_000_000,
    ensures
        r == (v * num) / (den as int),
        -16_000_000_000_000_000_000_000_000_000_000_000 <= r
            <= 16_000_000_000_000_000_000_000_000_000_000_000,
{
    assert(-16_000_000_000_000_000_000_000_000_000_000_000 <= v * num
        <= 16_000_000_000_000_000_000_000_000_000_000_000) by (nonlinear_arith)
        requires
            -4_000_000_000_000 <= v <= 4_000_000_000_000,
            -4_000_000_000_000_000_000_000 <= num <= 4_000_000_000_000_000_000_000,
    ;
    let n: i128 = v * num;
    if n >= 0 {
        proof {
            lemma_floor_of_positive(n as int, den as int);
        }
        n / den
    } else {
        proof {
            lemma_floor_of_negative(n as int, den as int);
        }
        -((-n + den - 1) / den)
    }
}

/// The coordinate nearest to `v`.
pub(crate) fn clamp_coord(v: i128) -> (r: i64)
    ensures
        r == clamp(v as int),
{
    if v < -(LIMIT as i128) {
        -LIMIT
    } else if v > LIMIT as i128 {
        LIMIT
    } else {
        v as i64
    }
}

/// The bounding box, the surface and the viewport's settings are such as
/// the transform takes: rectangles within `LIMIT`, a padding that is not
/// negative, a zoom factor above zero and up to `ZOOM_LIMIT`, a pan within
/// `LIMIT`.
pub open spec fn frame_ok(
    graph_bounds: Rectangle,
    padding: i64,
    canvas_bounds: Rectangle,
    zoom_level: i64,
    transpose_x: i64,
    transpose_y: i64,
) -> bool {
    &&& graph_bounds.wf()
    &&& canvas_bounds.wf()
    &&& 0 <= padding <= LIMIT
    &&& 0 < zoom_level <= ZOOM_LIMIT
    &&& in_range(transpose_x as int)
    &&& in_range(transpose_y as int)
}

/// The surface has room inside the padding, in width and in height.
pub open spec fn has_room(canvas_bounds: Rectangle, padding: i64) -> bool {
    canvas_bounds.width > 2 * padding && canvas_bounds.height > 2 * padding
}

/// `rect` is the bounding box of `positions`: the least rectangle that
/// holds them all, and the empty rectangle at the origin where there is no
/// position.
pub open spec fn is_bounding_box(positions: Seq<Point>, rect: Rectangle) -> bool {
    if positions.len() == 0 {
        rect == (Rectangle { x: 0, y: 0, width: 0, height: 0 })
    } else {
        &&& forall|i: int|
            0 <= i < positions.len() ==> rect.x <= (#[trigger] positions[i]).x <= rect.x
                + rect.width && rect.y <= positions[i].y <= rect.y + rect.height
        &&& exists|i: int| 0 <= i < positions.len() && (#[trigger] positions[i]).x == rect.x
        &&& exists|i: int|
            0 <= i < positions.len() && (#[trigger] positions[i]).x == rect.x + rect.width
        &&& exists|i: int| 0 <= i < positions.len() && (#[trigger] positions[i]).y == rect.y
        &&& exists|i: int|
            0 <= i < positions.len() && (#[trigger] positions[i]).y == rect.y + rect.height
    }
}

/// The bounding box of `positions`.
pub open spec fn bounding_box(positions: Seq<Point>) -> Rectangle {
    choose|rect: Rectangle| is_bounding_box(positions, rect)
}

/// Positions have one bounding box and no other.
pub proof fn lemma_bounding_box_unique(positions: Seq<Point>, rect: Rectangle)
    requires
        is_bounding_box(positions, rect),
    ensures
        rect == bounding_box(positions),
{
}

/// Every position is within `LIMIT`.
pub open spec fn all_wf(positions: Seq<Point>) -> bool {
    forall|i: int| 0 <= i < positions.len() ==> (#[trigger] positions[i]).wf()
}

/// The square of the distance between two points.
pub open spec fn distance_squared(a: Point, b: Point) -> int {
    (a.x - b.x) * (a.x - b.x) + (a.y - b.y) * (a.y - b.y)
}

/// `picked` is what `target` picks among `positions`: the first of the
/// positions nearest to `target`, if that one is nearer than `radius`, and
/// nothing if none is.
pub open spec fn picks(
    positions: Seq<Point>,
    target: Point,
    radius: int,
    picked: Option<usize>,
) -> bool {
    match picked {
        Some(i) => {
            &&& i < positions.len()
            &&& distance_squared(positions[i as int], target) < radius * radius
            &&& forall|j: int|
                0 <= j < positions.len() ==> distance_squared(positions[i as int], target)
                    <= distance_squared(#[trigger] positions[j], target)
            &&& forall|j: int|
                0 <= j < i ==> distance_squared(positions[i as int], target) < distance_squared(
                    #[trigger] positions[j],
                    target,
                )
        },
        None => forall|j: int|
            0 <= j < positions.len() ==> distance_squared(#[trigger] positions[j], target)
                >= radius * radius,
    }
}

/// Where a point of the layout stands on the surface.
pub open spec fn on_canvas(
    graph_bounds: Rectangle,
    point: Point,
    padding: i64,
    canvas_bounds: Rectangle,
    zoom_level: i64,
    transpose_x: i64,
    transpose_y: i64,
) -> Point {
    Point {
        x: screen_coord(
            point.x as int,
            graph_bounds.x as int,
            graph_bounds.width as int,
            canvas_bounds.x as int,
            canvas_bounds.width as int,
            padding as int,
            zoom_level as int,
            transpose_x as int,
        ) as i64,
        y: screen_coord(
            point.y as int,
            graph_bounds.y as int,
            graph_bounds.height as int,
            canvas_bounds.y as int,
            canvas_bounds.height as int,
            padding as int,
            zoom_level as int,
            transpose_y as int,
        ) as i64,
    }
}

/// The point of the layout that stands at a point of the surface.
pub open spec fn in_graph(
    graph_bounds: Rectangle,
    point: Point,
    padding: i64,
    canvas_bounds: Rectangle,
    zoom_level: i64,
    transpose_x: i64,
    transpose_y: i64,
) -> Point {
    Point {
        x: layout_coord(
            point.x as int,
            graph_bounds.x as int,
            graph_bounds.width as int,
            canvas_bounds.x as int,
            canvas_bounds.width as int,
            padding as int,
            zoom_level as int,
            transpose_x as int,
        ) as i64,
        y: layout_coord(
            point.y as int,
            graph_bounds.y as int,
            graph_bounds.height as int,
            canvas_bounds.y as int,
            canvas_bounds.height as int,
            padding as int,
            zoom_level as int,
            transpose_y as int,
        ) as i64,
    }
}

/// `screen_coord`, computed.
fn screen_axis(
    p: i64,
    graph_start: i64,
    graph_length: i64,
    canvas_start: i64,
    canvas_length: i64,
    padding: i64,
    zoom: i64,
    transpose: i64,
) -> (r: i64)
    requires
        in_range(p as int),
        in_range(graph_start as int),
        0 <= graph_length <= 2 * LIMIT,
        in_range(canvas_start as int),
        0 <= canvas_length <= 2 * LIMIT,
        0 <= padding <= LIMIT,
        0 < zoom <= ZOOM_LIMIT,
        in_range(transpose as int),
    ensures
        r == screen_coord(
            p as int,
            graph_start as int,
            graph_length as int,
            canvas_start as int,
            canvas_length as int,
            padding as int,
            zoom as int,
            transpose as int,
        ),
        in_range(r as int),
{
    let offset: i128 = p as i128 + (canvas_start as i128 - graph_start as i128);
    let room: i128 = canvas_length as i128 - 2 * (padding as i128);
    assert(-2_000_000_000_000_000_000 <= room * zoom <= 2_000_000_000_000_000_000)
        by (nonlinear_arith)
        requires
            -2_000_000_000_000 <= room <= 2_000_000_000_000,
            0 < zoom <= 1_000_000,
    ;
    let num: i128 = room * (zoom as i128);
    let length: i128 = if graph_length == 0 {
        UNIT as i128
    } else {
        graph_length as i128
    };
    let den: i128 = length * 1000;
    let scaled = scale(offset, num, den);
    clamp_coord(scaled + padding as i128 + transpose as i128)
}

/// `layout_coord`, computed.
fn layout_axis(
    s: i64,
    graph_start: i64,
    graph_length: i64,
    canvas_start: i64,
    canvas_length: i64,
    padding: i64,
    zoom: i64,
    transpose: i64,
) -> (r: i64)
    requires
        in_range(s as int),
        in_range(graph_start as int),
        0 <= graph_length <= 2 * LIMIT,
        in_range(canvas_start as int),
        0 <= canvas_length <= 2 * LIMIT,
        0 <= padding <= LIMIT,
        canvas_length > 2 * padding,
        0 < zoom <= ZOOM_LIMIT,
        in_range(transpose as int),
    ensures
        r == layout_coord(
            s as int,
            graph_start as int,
            graph_length as int,
            canvas_start as int,
            canvas_length as int,
            padding as int,
            zoom as int,
            transpose as int,
        ),
        in_range(r as int),
{
    let offset: i128 = s as i128 - padding as i128 - transpose as i128;
    let room: i128 = canvas_length as i128 - 2 * (padding as i128);
    assert(0 < room * zoom <= 2_000_000_000_000_000_000) by (nonlinear_arith)
        requires
            0 < room <= 2_000_000_000_000,
            0 < zoom <= 1_000_000,
    ;
    let den: i128 = room * (zoom as i128);
    let length: i128 = if graph_length == 0 {
        UNIT as i128
    } else {
        graph_length as i128
    };
    let num: i128 = length * 1000;
    let scaled = scale(offset, num, den);
    clamp_coord(scaled - (canvas_start as i128 - graph_start as i128))
}

/// Where a point of the layout stands on the surface.
pub fn graph_location_to_canvas_location(
    graph_bounds: &Rectangle,
    point: Point,
    padding: i64,
    canvas_bounds: &Rectangle,
    zoom_level: i64,
    transpose_x: i64,
    transpose_y: i64,
) -> (placed: Point)
    requires
        frame_ok(*graph_bounds, padding, *canvas_bounds, zoom_level, transpose_x, transpose_y),
        point.wf(),
    ensures
        placed.wf(),
        placed == on_canvas(
            *graph_bounds,
            point,
            padding,
            *canvas_bounds,
            zoom_level,
            transpose_x,
            transpose_y,
        ),
{
    Point {
        x: screen_axis(
            point.x,
            graph_bounds.x,
            graph_bounds.width,
            canvas_bounds.x,
            canvas_bounds.width,
            padding,
            zoom_level,
            transpose_x,
        ),
        y: screen_axis(
            point.y,
            graph_bounds.y,
            graph_bounds.height,
            canvas_bounds.y,
            canvas_bounds.height,
            padding,
            zoom_level,
            transpose_y,
        ),
    }
}

/// The point of the layout that stands at a point of the surface; none
/// where the surface has no room inside the padding.
pub fn canvas_location_to_graph_location(
    graph_bounds: &Rectangle,
    point: Point,
    padding: i64,
    canvas_bounds: &Rectangle,
    zoom_level: i64,
    transpose_x: i64,
    transpose_y: i64,
) -> (found: Option<Point>)
    requires
        frame_ok(*graph_bounds, padding, *canvas_bounds, zoom_level, transpose_x, transpose_y),
        point.wf(),
    ensures
        found is Some == has_room(*canvas_bounds, padding),
        found matches Some(q) ==> q.wf() && q == in_graph(
            *graph_bounds,
            point,
            padding,
            *canvas_bounds,
            zoom_level,
            transpose_x,
            transpose_y,
        ),
{
    if canvas_bounds.width <= 2 * padding || canvas_bounds.height <= 2 * padding {
        return None;
    }
    Some(
        Point {
            x: layout_axis(
                point.x,
                graph_bounds.x,
                graph_bounds.width,
                canvas_bounds.x,
                canvas_bounds.width,
                padding,
                zoom_level,
                transpose_x,
            ),
            y: layout_axis(
                point.y,
                graph_bounds.y,
                graph_bounds.height,
                canvas_bounds.y,
                canvas_bounds.height,
                padding,
                zoom_level,
                transpose_y,
            ),
        },
    )
}

/// The bounding box of the nodes' positions, found anew from the positions
/// as they are.
pub fn graph_bounds(positions: &Vec<Point>) -> (rect: Rectangle)
    requires
        all_wf(positions@),
    ensures
        rect.wf(),
        is_bounding_box(positions@, rect),
        rect == bounding_box(positions@),
{
    let n = positions.len();
    if n == 0 {
        let rect = Rectangle { x: 0, y: 0, width: 0, height: 0 };
        proof {
            lemma_bounding_box_unique(positions@, rect);
        }
        return rect;
    }
    let first = positions[0];
    let mut min_x: i64 = first.x;
    let mut max_x: i64 = first.x;
    let mut min_y: i64 = first.y;
    let mut max_y: i64 = first.y;
    let ghost mut at_min_x: int = 0;
    let ghost mut at_max_x: int = 0;
    let ghost mut at_min_y: int = 0;
    let ghost mut at_max_y: int = 0;
    let mut i: usize = 1;
    while i < n
        invariant
            1 <= i <= n,
            n == positions.len(),
            all_wf(positions@),
            0 <= at_min_x < i && positions[at_min_x].x == min_x,
            0 <= at_max_x < i && positions[at_max_x].x == max_x,
            0 <= at_min_y < i && positions[at_min_y].y == min_y,
            0 <= at_max_y < i && positions[at_max_y].y == max_y,
            forall|k: int|
                0 <= k < i ==> min_x <= (#[trigger] positions[k]).x <= max_x && min_y
                    <= positions[k].y <= max_y,
        decreases n - i,
    {
        let p = positions[i];
        if p.x < min_x {
            min_x = p.x;
            proof {
                at_min_x = i as int;
            }
        }
        if p.x > max_x {
            max_x = p.x;
            proof {
                at_max_x = i as int;
            }
        }
        if p.y < min_y {
            min_y = p.y;
            proof {
                at_min_y = i as int;
            }
        }
        if p.y > max_y {
            max_y = p.y;
            proof {
                at_max_y = i as int;
            }
        }
        i += 1;
    }
    let rect = Rectangle { x: min_x, y: min_y, width: max_x - min_x, height: max_y - min_y };
    proof {
        lemma_bounding_box_unique(positions@, rect);
    }
    rect
}

/// The square of the distance between two points.
fn distance_squared_of(a: Point, b: Point) -> (d: i128)
    requires
        a.wf(),
        b.wf(),
    ensures
        d == distance_squared(a, b),
        0 <= d <= 8_000_000_000_000_000_000_000_000,
{
    let dx: i128 = a.x as i128 - b.x as i128;
    let dy: i128 = a.y as i128 - b.y as i128;
    assert(0 <= dx * dx <= 4_000_000_000_000_000_000_000_000) by (nonlinear_arith)
        requires
            -2_000_000_000_000 <= dx <= 2_000_000_000_000,
    ;
    assert(0 <= dy * dy <= 4_000_000_000_000_000_000_000_000) by (nonlinear_arith)
        requires
            -2_000_000_000_000 <= dy <= 2_000_000_000_000,
    ;
    dx * dx + dy * dy
}

/// The node nearest to `target`, if it is nearer than `radius`: the first
/// such node, where several are as near. No node is picked where all are at
/// `radius` or farther, or where there is no node.
pub fn nearest_to(positions: &Vec<Point>, target: Point, radius: i64) -> (picked: Option<usize>)
    requires
        all_wf(positions@),
        target.wf(),
        0 <= radius <= LIMIT,
    ensures
        picks(positions@, target, radius as int, picked),
{
    let n = positions.len();
    if n == 0 {
        return None;
    }
    let mut best: usize = 0;
    let mut least: i128 = distance_squared_of(positions[0], target);
    let mut i: usize = 1;
    while i < n
        invariant
            1 <= i <= n,
            n == positions.len(),
            all_wf(positions@),
            target.wf(),
            best < i,
            least == distance_squared(positions[best as int], target),
            forall|j: int|
                0 <= j < i ==> least <= distance_squared(#[trigger] positions[j], target),
            forall|j: int|
                0 <= j < best ==> least < distance_squared(#[trigger] positions[j], target),
        decreases n - i,
    {
        let d = distance_squared_of(positions[i], target);
        if d < least {
            best = i;
            least = d;
        }
        i += 1;
    }
    assert(0 <= radius * radius <= 1_000_000_000_000_000_000_000_000) by (nonlinear_arith)
        requires
            0 <= radius <= 1_000_000_000_000,
    ;
    let reach: i128 = (radius as i128) * (radius as i128);
    if least < reach {
        Some(best)
    } else {
        None
    }
}

/// A point that is a node's position picks a node at that position,
/// whatever the radius above zero: the node itself, or one before it that
/// stands at the same place.
pub proof fn lemma_pick_at_node(
    positions: Seq<Point>,
    k: int,
    radius: int,
    picked: Option<usize>,
)
    requires
        0 <= k < positions.len(),
        radius > 0,
        picks(positions, positions[k], radius, picked),
    ensures
        picked matches Some(i) && i <= k && positions[i as int] == positions[k],
{
    let target = positions[k];
    assert(radius * radius > 0) by (nonlinear_arith)
        requires
            radius > 0,
    ;
    if let Some(i) = picked {
        let p = positions[i as int];
        let dx = p.x - target.x;
        let dy = p.y - target.y;
        assert(dx * dx >= 0 && dy * dy >= 0 && (dx != 0 ==> dx * dx > 0) && (dy != 0 ==> dy * dy
            > 0)) by (nonlinear_arith);
    }
}

/// A picked node is nearer to the target than the radius.
pub proof fn lemma_pick_within_radius(
    positions: Seq<Point>,
    target: Point,
    radius: int,
    picked: Option<usize>,
)
    requires
        picks(positions, target, radius, picked),
    ensures
        picked matches Some(i) ==> i < positions.len() && distance_squared(
            positions[i as int],
            target,
        ) < radius * radius,
{
}

/// What a target picks is settled by the positions, the target and the
/// radius.
pub proof fn lemma_pick_unique(
    positions: Seq<Point>,
    target: Point,
    radius: int,
    one: Option<usize>,
    other: Option<usize>,
)
    requires
        picks(positions, target, radius, one),
        picks(positions, target, radius, other),
    ensures
        one == other,
{
}

} // verus!
