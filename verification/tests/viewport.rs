use markdown_links::viewport::{
    canvas_location_to_graph_location, graph_bounds, graph_location_to_canvas_location, nearest_to, Point, Rectangle,
};

fn p(x: i64, y: i64) -> Point {
    Point { x, y }
}

fn rect(x: i64, y: i64, width: i64, height: i64) -> Rectangle {
    Rectangle { x, y, width, height }
}

#[test]
fn bounds_of_no_node_are_empty_at_the_origin() {
    assert_eq!(graph_bounds(&vec![]), rect(0, 0, 0, 0));
}

#[test]
fn bounds_of_one_node_have_no_extent() {
    assert_eq!(graph_bounds(&vec![p(5_000, -7_000)]), rect(5_000, -7_000, 0, 0));
}

#[test]
fn bounds_are_the_least_and_the_greatest_coordinates() {
    let positions = vec![p(10_000, 5_000), p(-100_000, 50_000), p(100_000, -50_000), p(0, 0)];
    assert_eq!(graph_bounds(&positions), rect(-100_000, -50_000, 200_000, 100_000));
    let positive = vec![p(10_000, 20_000), p(30_000, 25_000)];
    assert_eq!(graph_bounds(&positive), rect(10_000, 20_000, 20_000, 5_000));
}

#[test]
fn layout_to_surface() {
    let graph = rect(-100_000, -50_000, 200_000, 100_000);
    let canvas = rect(0, 0, 840_000, 440_000);
    let at = |point: Point| graph_location_to_canvas_location(&graph, point, 20_000, &canvas, 1_000, 0, 0);
    assert_eq!(at(p(0, 0)), p(420_000, 220_000));
    assert_eq!(at(p(-100_000, -50_000)), p(20_000, 20_000));
    assert_eq!(at(p(100_000, 50_000)), p(820_000, 420_000));
    assert_eq!(at(p(1, -1)), p(420_004, 219_996));
}

#[test]
fn layout_to_surface_with_zoom_and_pan() {
    let graph = rect(-100_000, -50_000, 200_000, 100_000);
    let canvas = rect(0, 0, 840_000, 440_000);
    let at = graph_location_to_canvas_location(&graph, p(1, 0), 20_000, &canvas, 1_500, 7_000, -3_000);
    assert_eq!(at, p(627_006, 317_000));
}

#[test]
fn layout_to_surface_rounds_down() {
    let graph = rect(-100_000, 0, 300_000, 300_000);
    let canvas = rect(0, 0, 840_000, 840_000);
    let at = |x: i64| graph_location_to_canvas_location(&graph, p(x, 0), 20_000, &canvas, 1_000, 0, 0).x;
    assert_eq!(at(1), 286_669);
    assert_eq!(at(-100_001), 19_997);
    assert_eq!(at(-100_000), 20_000);
}

#[test]
fn the_surface_origin_shifts_the_layout() {
    let graph = rect(-100_000, -50_000, 200_000, 100_000);
    let canvas = rect(10_000, 5_000, 840_000, 440_000);
    let at = graph_location_to_canvas_location(&graph, p(0, 0), 20_000, &canvas, 1_000, 0, 0);
    assert_eq!(at, p(460_000, 240_000));
    let back = canvas_location_to_graph_location(&graph, at, 20_000, &canvas, 1_000, 0, 0);
    assert_eq!(back, Some(p(0, 0)));
}

#[test]
fn a_box_without_extent_counts_as_one_unit() {
    let graph = rect(5_000, 5_000, 0, 0);
    let canvas = rect(0, 0, 840_000, 440_000);
    let at = graph_location_to_canvas_location(&graph, p(5_000, 5_000), 20_000, &canvas, 1_000, 0, 0);
    assert_eq!(at, p(20_000, 20_000));
    let back = canvas_location_to_graph_location(&graph, at, 20_000, &canvas, 1_000, 0, 0);
    assert_eq!(back, Some(p(5_000, 5_000)));
    let beside = graph_location_to_canvas_location(&graph, p(6_000, 5_500), 20_000, &canvas, 1_000, 0, 0);
    assert_eq!(beside, p(820_000, 220_000));
    let back = canvas_location_to_graph_location(&graph, beside, 20_000, &canvas, 1_000, 0, 0);
    assert_eq!(back, Some(p(6_000, 5_500)));
}

#[test]
fn surface_to_layout() {
    let graph = rect(-100_000, -50_000, 200_000, 100_000);
    let canvas = rect(0, 0, 840_000, 440_000);
    let at = |point: Point| canvas_location_to_graph_location(&graph, point, 20_000, &canvas, 1_000, 0, 0);
    assert_eq!(at(p(420_000, 220_000)), Some(p(0, 0)));
    assert_eq!(at(p(20_000, 20_000)), Some(p(-100_000, -50_000)));
    assert_eq!(at(p(420_003, 219_997)), Some(p(0, -1)));
    let panned = canvas_location_to_graph_location(&graph, p(427_000, 217_000), 20_000, &canvas, 1_000, 7_000, -3_000);
    assert_eq!(panned, Some(p(0, 0)));
    let zoomed = canvas_location_to_graph_location(&graph, p(620_000, 20_000), 20_000, &canvas, 2_000, 0, 0);
    assert_eq!(zoomed, Some(p(-25_000, -50_000)));
}

#[test]
fn a_surface_without_room_has_no_layout_point() {
    let graph = rect(-100_000, -50_000, 200_000, 100_000);
    let narrow = rect(0, 0, 40_000, 440_000);
    assert_eq!(canvas_location_to_graph_location(&graph, p(1, 1), 20_000, &narrow, 1_000, 0, 0), None);
    let low = rect(0, 0, 840_000, 30_000);
    assert_eq!(canvas_location_to_graph_location(&graph, p(1, 1), 20_000, &low, 1_000, 0, 0), None);
}

#[test]
fn a_coordinate_stops_at_the_limit() {
    let graph = rect(0, 0, 1, 1);
    let canvas = rect(0, 0, 1_000_000_000, 1_000_000_000);
    let at = graph_location_to_canvas_location(&graph, p(1_000_000_000_000, -1_000_000_000_000), 0, &canvas, 1_000_000, 0, 0);
    assert_eq!(at, p(1_000_000_000_000, -1_000_000_000_000));
}

#[test]
fn the_nearest_node_within_the_radius_is_picked() {
    let positions = vec![p(0, 0), p(50_000, 0), p(200_000, 0)];
    assert_eq!(nearest_to(&positions, p(30_000, 0), 100_000), Some(1));
    assert_eq!(nearest_to(&positions, p(190_000, 40_000), 100_000), Some(2));
    assert_eq!(nearest_to(&positions, p(-10_000, -10_000), 100_000), Some(0));
}

#[test]
fn a_node_at_the_radius_or_beyond_is_not_picked() {
    let positions = vec![p(0, 0), p(50_000, 0), p(200_000, 0)];
    assert_eq!(nearest_to(&positions, p(1_000_000, 0), 100_000), None);
    assert_eq!(nearest_to(&positions, p(300_000, 0), 100_000), None);
    assert_eq!(nearest_to(&positions, p(299_999, 0), 100_000), Some(2));
    assert_eq!(nearest_to(&positions, p(260_000, 80_000), 100_000), None);
    assert_eq!(nearest_to(&positions, p(260_000, 79_999), 100_000), Some(2));
    assert_eq!(nearest_to(&positions, p(0, 0), 0), None);
}

#[test]
fn no_node_nothing_picked() {
    assert_eq!(nearest_to(&vec![], p(0, 0), 100_000), None);
}

#[test]
fn a_node_position_picks_that_node() {
    let positions = vec![p(0, 0), p(50_000, 0), p(200_000, 0), p(-3, 17)];
    for (i, position) in positions.iter().enumerate() {
        assert_eq!(nearest_to(&positions, *position, 1), Some(i));
    }
}

#[test]
fn of_nodes_as_near_the_first_is_picked() {
    let positions = vec![p(0, 0), p(50_000, 0), p(50_000, 0)];
    assert_eq!(nearest_to(&positions, p(25_000, 0), 100_000), Some(0));
    assert_eq!(nearest_to(&positions, p(50_000, 0), 100_000), Some(1));
}

#[test]
fn distances_at_the_limit_do_not_overflow() {
    let far = 1_000_000_000_000;
    let positions = vec![p(far, far), p(-far, -far)];
    assert_eq!(nearest_to(&positions, p(-far, -far), far), Some(1));
    assert_eq!(nearest_to(&positions, p(-far, far), far), None);
}
