use markdown_links::graphapp::{GMessage, GraphApp, GraphState, CYCLE, MAX_STEPS};
use markdown_links::plugin::{connect, Event, Message, State, Task};

#[test]
fn the_application_at_the_start() {
    let app = GraphApp::new();
    assert_eq!(app.steps(), 0);
    assert_eq!(app.graph_state(), GraphState { active_node: None, visualization_frac: 0 });
    assert_eq!(app.graph_state(), GraphState::default());
    assert_eq!(app.title(), "Markdown Links");
    assert_eq!((MAX_STEPS, CYCLE), (1000, 120));
}

#[test]
fn a_tick_advances_the_layout_until_it_has_settled() {
    let mut app = GraphApp::new();
    for step in 0..1000 {
        assert_eq!(app.steps(), step);
        assert!(app.update(GMessage::GraphicsTick));
    }
    assert_eq!(app.steps(), 1000);
    for _ in 0..500 {
        assert!(!app.update(GMessage::GraphicsTick));
        assert_eq!(app.steps(), 1000);
    }
}

#[test]
fn the_highlight_goes_round() {
    let mut app = GraphApp::new();
    for tick in 1..=119 {
        app.update(GMessage::GraphicsTick);
        assert_eq!(app.graph_state().visualization_frac, tick);
    }
    app.update(GMessage::GraphicsTick);
    assert_eq!(app.graph_state().visualization_frac, 0);
    for _ in 0..1085 {
        app.update(GMessage::GraphicsTick);
    }
    assert_eq!(app.graph_state().visualization_frac, 5);
}

#[test]
fn a_click_selects_and_a_click_at_nothing_keeps_the_selection() {
    let mut app = GraphApp::new();
    assert!(!app.update(GMessage::GraphClick(Some(4))));
    assert_eq!(app.graph_state().active_node, Some(4));
    assert!(!app.update(GMessage::GraphClick(None)));
    assert_eq!(app.graph_state().active_node, Some(4));
    assert!(!app.update(GMessage::GraphClick(Some(0))));
    assert_eq!(app.graph_state().active_node, Some(0));
    assert_eq!(app.steps(), 0);
}

#[test]
fn a_click_does_not_set_a_settled_layout_going() {
    let mut app = GraphApp::new();
    for _ in 0..1000 {
        app.update(GMessage::GraphicsTick);
    }
    app.update(GMessage::GraphClick(Some(1)));
    assert_eq!(app.steps(), 1000);
    assert!(!app.update(GMessage::GraphicsTick));
    assert_eq!(app.graph_state().active_node, Some(1));
}

#[test]
fn two_applications_fed_alike_stay_alike() {
    let mut one = GraphApp::new();
    let mut other = GraphApp::new();
    let messages = [GMessage::GraphicsTick, GMessage::GraphClick(Some(2)), GMessage::GraphicsTick, GMessage::GraphClick(None)];
    for round in 0..700 {
        let message = messages[round % messages.len()];
        assert_eq!(one.update(message), other.update(message));
        assert_eq!(one.steps(), other.steps());
        assert_eq!(one.graph_state(), other.graph_state());
    }
}

#[test]
fn the_plugin_opens_the_session_and_then_listens() {
    let (task, state, event) = connect(State::Disconnected);
    assert_eq!((task, state, event), (Task::OpenSession, State::Connected, Event::Connected));
    let (task, state, event) = connect(state);
    assert_eq!((task, state, event), (Task::AwaitEditor, State::Connected, Event::MessageReceived(Message::Connected)));
    let (task, state, _) = connect(state);
    assert_eq!((task, state), (Task::AwaitEditor, State::Connected));
}
