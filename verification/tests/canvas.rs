use markdown_links::graphapp::{GMessage, GraphState};
use markdown_links::graphcanvas::{CanvasState, GraphDisplay, Interaction, Pointer, Primitive, Shade, Status};
use markdown_links::viewport::{Point, Rectangle};

fn p(x: i64, y: i64) -> Point {
    Point { x, y }
}

fn surface() -> Rectangle {
    Rectangle { x: 0, y: 0, width: 840_000, height: 440_000 }
}

fn names() -> Vec<String> {
    vec!["west".to_string(), "east".to_string(), "middle".to_string(), "far".to_string()]
}

fn display(names: &Vec<String>, active_node: Option<usize>, visualization_frac: u32) -> GraphDisplay<'_> {
    GraphDisplay::new(
        names,
        vec![p(-100_000, -50_000), p(100_000, 50_000), p(0, 0), p(100_000, -50_000)],
        vec![(0, 1), (2, 1)],
        GraphState { active_node, visualization_frac },
    )
}

#[test]
fn the_state_at_the_start() {
    let state = CanvasState::default();
    assert_eq!(state.cursor_position, p(0, 0));
    assert_eq!(state.position_drag_last, p(0, 0));
    assert!(!state.left_button_pressed);
    assert_eq!(state.point_radius, 3_000);
    assert_eq!(state.padding, 20_000);
    assert_eq!(state.zoom_level, 1_000);
    assert_eq!((state.zoom_min, state.zoom_max), (100, 3_000));
    assert_eq!(state.pick_radius, 100_000);
    assert_eq!((state.transpose_x, state.transpose_y), (0, 0));
}

#[test]
fn a_press_selects_the_node_under_the_pointer_and_starts_a_drag() {
    let names = names();
    let shown = display(&names, None, 0);
    let mut state = CanvasState::default();
    let taken = shown.update(&mut state, Pointer::Pressed { position: p(420_000, 220_000) }, surface());
    assert_eq!(taken, (Status::Captured, Some(GMessage::GraphClick(Some(2)))));
    assert!(state.left_button_pressed);
    assert_eq!(state.position_drag_last, p(420_000, 220_000));
    assert_eq!(state.cursor_position, p(0, 0));
    assert_eq!(shown.mouse_interaction(&state), Interaction::Grabbing);
}

#[test]
fn a_press_away_from_every_node_selects_none() {
    let names = names();
    let shown = display(&names, Some(1), 0);
    let mut state = CanvasState::default();
    let taken = shown.update(&mut state, Pointer::Pressed { position: p(20_000, 420_000) }, surface());
    assert_eq!(taken, (Status::Captured, Some(GMessage::GraphClick(None))));
    assert!(state.left_button_pressed);
}

#[test]
fn a_press_on_a_surface_without_room_selects_none() {
    let names = names();
    let shown = display(&names, None, 0);
    let mut state = CanvasState::default();
    let narrow = Rectangle { x: 0, y: 0, width: 40_000, height: 440_000 };
    let taken = shown.update(&mut state, Pointer::Pressed { position: p(20_000, 20_000) }, narrow);
    assert_eq!(taken, (Status::Captured, Some(GMessage::GraphClick(None))));
}

#[test]
fn the_nearest_node_under_pan_and_zoom() {
    let names = names();
    let shown = display(&names, None, 0);
    let mut state = CanvasState::default();
    state.zoom_level = 2_000;
    state.transpose_x = -400_000;
    state.transpose_y = -200_000;
    assert_eq!(shown.nearest_node(&state, p(420_000, 220_000), surface()), Some(2));
    assert_eq!(shown.nearest_node(&state, p(1_220_000, 620_000), surface()), Some(1));
    assert_eq!(shown.nearest_node(&state, p(20_000, 20_000), surface()), Some(0));
    state.pick_radius = 10_000;
    assert_eq!(shown.nearest_node(&state, p(120_000, 20_000), surface()), None);
    assert_eq!(shown.nearest_node(&state, p(428_000, 212_000), surface()), Some(2));
}

#[test]
fn a_move_while_dragging_pans() {
    let names = names();
    let shown = display(&names, None, 0);
    let mut state = CanvasState::default();
    shown.update(&mut state, Pointer::Pressed { position: p(100_000, 100_000) }, surface());
    let taken = shown.update(&mut state, Pointer::Moved { position: p(130_000, 90_000) }, surface());
    assert_eq!(taken, (Status::Captured, None));
    assert_eq!((state.transpose_x, state.transpose_y), (30_000, -10_000));
    assert_eq!(state.position_drag_last, p(130_000, 90_000));
    assert_eq!(state.cursor_position, p(130_000, 90_000));
    shown.update(&mut state, Pointer::Moved { position: p(120_000, 95_000) }, surface());
    assert_eq!((state.transpose_x, state.transpose_y), (20_000, -5_000));
}

#[test]
fn a_move_without_a_drag_only_moves_the_pointer() {
    let names = names();
    let shown = display(&names, None, 0);
    let mut state = CanvasState::default();
    let taken = shown.update(&mut state, Pointer::Moved { position: p(130_000, 90_000) }, surface());
    assert_eq!(taken, (Status::Captured, None));
    assert_eq!(state.cursor_position, p(130_000, 90_000));
    assert_eq!((state.transpose_x, state.transpose_y), (0, 0));
    assert_eq!(state.position_drag_last, p(0, 0));
    assert_eq!(shown.mouse_interaction(&state), Interaction::Idle);
}

#[test]
fn a_release_ends_the_drag() {
    let names = names();
    let shown = display(&names, None, 0);
    let mut state = CanvasState::default();
    shown.update(&mut state, Pointer::Pressed { position: p(100_000, 100_000) }, surface());
    let taken = shown.update(&mut state, Pointer::Released, surface());
    assert_eq!(taken, (Status::Captured, None));
    assert!(!state.left_button_pressed);
    shown.update(&mut state, Pointer::Moved { position: p(130_000, 90_000) }, surface());
    assert_eq!((state.transpose_x, state.transpose_y), (0, 0));
}

#[test]
fn the_pan_stops_at_the_limit() {
    let names = names();
    let shown = display(&names, None, 0);
    let mut state = CanvasState::default();
    let far = 1_000_000_000_000;
    shown.update(&mut state, Pointer::Pressed { position: p(-far, 0) }, surface());
    shown.update(&mut state, Pointer::Moved { position: p(far, 0) }, surface());
    assert_eq!(state.transpose_x, far);
    shown.update(&mut state, Pointer::Moved { position: p(far - 1, 5) }, surface());
    assert_eq!((state.transpose_x, state.transpose_y), (far - 1, 5));
}

#[test]
fn a_scroll_zooms_about_the_pointer() {
    let names = names();
    let shown = display(&names, None, 0);
    let mut state = CanvasState::default();
    let taken = shown.update(&mut state, Pointer::Scrolled { delta: 1_000, position: p(620_000, 220_000) }, surface());
    assert_eq!(taken, (Status::Captured, None));
    assert_eq!(state.zoom_level, 1_033);
    assert_eq!((state.transpose_x, state.transpose_y), (6_600, 0));
    shown.update(&mut state, Pointer::Scrolled { delta: -1_000, position: p(420_000, 20_000) }, surface());
    assert_eq!(state.zoom_level, 998);
    assert_eq!((state.transpose_x, state.transpose_y), (6_600, 6_559));
}

#[test]
fn the_zoom_factor_stays_at_its_upper_bound() {
    let names = names();
    let shown = display(&names, None, 0);
    let mut state = CanvasState::default();
    let mut steps = 0;
    while state.zoom_level < 3_000 {
        shown.update(&mut state, Pointer::Scrolled { delta: 1_000, position: p(620_000, 220_000) }, surface());
        steps += 1;
        assert!(state.zoom_level <= 3_000);
        assert!(steps < 100);
    }
    assert_eq!(steps, 34);
    let at_cap = state;
    for _ in 0..10 {
        shown.update(&mut state, Pointer::Scrolled { delta: 1_000, position: p(620_000, 220_000) }, surface());
        assert_eq!(state, at_cap);
    }
    assert_eq!(state.zoom_level, 3_000);
}

#[test]
fn the_zoom_factor_stays_at_its_lower_bound() {
    let names = names();
    let shown = display(&names, None, 0);
    let mut state = CanvasState::default();
    for _ in 0..200 {
        shown.update(&mut state, Pointer::Scrolled { delta: -1_000, position: p(420_000, 220_000) }, surface());
        assert!(state.zoom_level >= 100);
    }
    assert_eq!(state.zoom_level, 100);
    shown.update(&mut state, Pointer::Scrolled { delta: -40_000, position: p(420_000, 220_000) }, surface());
    assert_eq!(state.zoom_level, 100);
    shown.update(&mut state, Pointer::Scrolled { delta: 30_000, position: p(420_000, 220_000) }, surface());
    assert_eq!(state.zoom_level, 200);
}

#[test]
fn other_events_are_not_taken() {
    let names = names();
    let shown = display(&names, None, 0);
    let mut state = CanvasState::default();
    let taken = shown.update(&mut state, Pointer::Other, surface());
    assert_eq!(taken, (Status::Ignored, None));
    assert_eq!(state, CanvasState::default());
}

#[test]
fn the_picture_without_a_selection() {
    let names = names();
    let shown = display(&names, None, 0);
    let state = CanvasState::default();
    let picture = shown.draw(&state, surface());
    let circle = |x: i64, y: i64| Primitive::Circle { center: p(x, y), radius: 3_000, shade: Shade::Primary };
    assert_eq!(
        picture,
        vec![
            circle(20_000, 20_000),
            circle(820_000, 420_000),
            circle(420_000, 220_000),
            circle(820_000, 20_000),
            Primitive::Line { from: p(20_000, 20_000), to: p(820_000, 420_000), shade: Shade::Primary },
            Primitive::Line { from: p(420_000, 220_000), to: p(820_000, 420_000), shade: Shade::Primary },
        ]
    );
}

#[test]
fn the_picture_with_a_selection() {
    let names = names();
    let shown = display(&names, Some(0), 30);
    let state = CanvasState::default();
    let picture = shown.draw(&state, surface());
    let circle = |x: i64, y: i64, shade: Shade| Primitive::Circle { center: p(x, y), radius: 3_000, shade };
    assert_eq!(
        picture,
        vec![
            circle(20_000, 20_000, Shade::Text),
            circle(820_000, 420_000, Shade::Text),
            circle(420_000, 220_000, Shade::Primary),
            circle(820_000, 20_000, Shade::Primary),
            Primitive::Line { from: p(20_000, 20_000), to: p(820_000, 420_000), shade: Shade::Text },
            Primitive::Circle { center: p(220_000, 120_000), radius: 2_100, shade: Shade::Success },
            Primitive::Line { from: p(420_000, 220_000), to: p(820_000, 420_000), shade: Shade::Primary },
        ]
    );
}

#[test]
fn a_selected_node_without_an_edge_is_not_lit() {
    let names = names();
    let shown = display(&names, Some(3), 0);
    let state = CanvasState::default();
    let picture = shown.draw(&state, surface());
    assert_eq!(picture[3], Primitive::Circle { center: p(820_000, 20_000), radius: 3_000, shade: Shade::Primary });
    assert_eq!(picture.len(), 6);
    assert!(picture.iter().all(|primitive| match primitive {
        Primitive::Circle { shade, .. } => *shade == Shade::Primary,
        Primitive::Line { shade, .. } => *shade == Shade::Primary,
        Primitive::Label { .. } => false,
    }));
}

#[test]
fn labels_come_with_the_zoom() {
    let names = names();
    let shown = display(&names, Some(1), 119);
    let mut state = CanvasState::default();
    state.zoom_level = 2_000;
    state.transpose_x = -400_000;
    state.transpose_y = -200_000;
    let picture = shown.draw(&state, surface());
    let node = |name: &str, x: i64, y: i64, shade: Shade| {
        vec![
            Primitive::Circle { center: p(x, y), radius: 3_300, shade },
            Primitive::Label { content: name.to_string(), position: p(x + 4_000, y), size: 9_000, shade },
        ]
    };
    let mut expected = Vec::new();
    expected.extend(node("west", -380_000, -180_000, Shade::Text));
    expected.extend(node("east", 1_220_000, 620_000, Shade::Text));
    expected.extend(node("middle", 420_000, 220_000, Shade::Text));
    expected.extend(node("far", 1_220_000, -180_000, Shade::Primary));
    expected.push(Primitive::Line { from: p(-380_000, -180_000), to: p(1_220_000, 620_000), shade: Shade::Text });
    expected.push(Primitive::Circle { center: p(1_206_666, 613_333), radius: 2_400, shade: Shade::Success });
    expected.push(Primitive::Line { from: p(420_000, 220_000), to: p(1_220_000, 620_000), shade: Shade::Text });
    expected.push(Primitive::Circle { center: p(1_213_333, 616_666), radius: 2_400, shade: Shade::Success });
    assert_eq!(picture, expected);
}

#[test]
fn the_highlight_goes_against_the_coordinates_too() {
    let two = vec!["one".to_string(), "other".to_string()];
    let shown = GraphDisplay::new(
        &two,
        vec![p(100_000, 50_000), p(-100_000, -50_000)],
        vec![(0, 1)],
        GraphState { active_node: Some(1), visualization_frac: 1 },
    );
    let picture = shown.draw(&CanvasState::default(), surface());
    assert_eq!(picture[2], Primitive::Line { from: p(820_000, 420_000), to: p(20_000, 20_000), shade: Shade::Text });
    assert_eq!(picture[3], Primitive::Circle { center: p(813_333, 416_666), radius: 2_100, shade: Shade::Success });
}

#[test]
fn the_picture_of_no_node_is_empty() {
    let none = Vec::new();
    let shown = GraphDisplay::new(&none, vec![], vec![], GraphState::default());
    assert_eq!(shown.draw(&CanvasState::default(), surface()), vec![]);
    assert_eq!(shown.nearest_node(&CanvasState::default(), p(1, 1), surface()), None);
}
