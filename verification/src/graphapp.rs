//! The application's state between frames: which node is selected, how far
//! the highlight has travelled, and how many steps the layout has made.

use fdg_sim::ForceGraph;
use vstd::prelude::*;

verus! {

/// What the application is started with: the graph to show.
pub struct GraphAppFlags {
    pub graph: ForceGraph<(), ()>,
}

impl GraphAppFlags {
    /// Flags that hold `graph`.
    pub fn from_graph(graph: ForceGraph<(), ()>) -> (flags: GraphAppFlags)
        ensures
            flags.graph == graph,
    {
        GraphAppFlags { graph }
    }
}

/// The layout is taken as settled after this many steps.
pub const MAX_STEPS: usize = 1000;

/// The highlight travels along an edge once in this many ticks.
pub const CYCLE: u32 = 120;

/// What the canvas reads of the application: the selected node, and how far
/// along its edges the highlight stands, in `CYCLE`ths.
#[derive(Clone, Copy, Debug, PartialEq, Eq)]
pub struct GraphState {
    pub active_node: Option<usize>,
    pub visualization_frac: u32,
}

impl Default for GraphState {
    fn default() -> (state: GraphState)
        ensures
            state.active_node is None,
            state.visualization_frac == 0,
    {
        GraphState { active_node: None, visualization_frac: 0 }
    }
}

/// What the application is told.
#[derive(Clone, Copy, Debug, PartialEq, Eq)]
pub enum GMessage {
    /// The canvas was clicked, at this node or at none.
    GraphClick(Option<usize>),
    /// Time for the next frame.
    GraphicsTick,
}

/// The application's state. The simulation itself is the host's: `update`
/// says when it is to advance.
pub struct GraphApp {
    update_step_counter: usize,
    graph_state: GraphState,
}

/// What `GraphApp` holds.
pub ghost struct GraphAppView {
    pub steps: nat,
    pub active_node: Option<usize>,
    pub frac: nat,
}

/// The state after `message`: a click at a node selects it, a click at none
/// leaves the selection; a tick counts a step while the layout has not
/// settled, and moves the highlight on by one, from the end back to the
/// start.
pub open spec fn after(app: GraphAppView, message: GMessage) -> GraphAppView {
    match message {
        GMessage::GraphClick(Some(node)) => GraphAppView { active_node: Some(node), ..app },
        GMessage::GraphClick(None) => app,
        GMessage::GraphicsTick => GraphAppView {
            steps: if app.steps < MAX_STEPS {
                app.steps + 1
            } else {
                app.steps
            },
            frac: if app.frac + 1 < CYCLE {
                app.frac + 1
            } else {
                0
            },
            ..app
        },
    }
}

/// Whether the layout advances on `message`.
pub open spec fn advances(app: GraphAppView, message: GMessage) -> bool {
    message is GraphicsTick && app.steps < MAX_STEPS
}

/// The state after the messages of `messages`, in their order.
pub open spec fn after_all(app: GraphAppView, messages: Seq<GMessage>) -> GraphAppView
    decreases messages.len(),
{
    if messages.len() == 0 {
        app
    } else {
        after(after_all(app, messages.drop_last()), messages.last())
    }
}

/// The number of ticks among `messages`.
pub open spec fn ticks_in(messages: Seq<GMessage>) -> nat
    decreases messages.len(),
{
    if messages.len() == 0 {
        0
    } else if messages.last() is GraphicsTick {
        ticks_in(messages.drop_last()) + 1
    } else {
        ticks_in(messages.drop_last())
    }
}

impl View for GraphApp {
    type V = GraphAppView;

    closed spec fn view(&self) -> GraphAppView {
        GraphAppView {
            steps: self.update_step_counter as nat,
            active_node: self.graph_state.active_node,
            frac: self.graph_state.visualization_frac as nat,
        }
    }
}

impl GraphApp {
    /// The step count is within its cap and the highlight within its cycle.
    pub open spec fn wf(&self) -> bool {
        self@.steps <= MAX_STEPS && self@.frac < CYCLE
    }

    /// The state at the start: nothing selected, no step made.
    pub fn new() -> (app: GraphApp)
        ensures
            app.wf(),
            app@ == (GraphAppView { steps: 0, active_node: None, frac: 0 }),
    {
        GraphApp { update_step_counter: 0, graph_state: GraphState::default() }
    }

    /// The window's title.
    pub fn title(&self) -> (title: String)
        ensures
            title@ == "Markdown Links"@,
    {
        "Markdown Links".to_owned()
    }

    /// What the canvas reads.
    pub fn graph_state(&self) -> (state: GraphState)
        ensures
            state.active_node == self@.active_node,
            state.visualization_frac == self@.frac,
    {
        self.graph_state
    }

    /// The number of steps that the layout has made.
    pub fn steps(&self) -> (steps: usize)
        ensures
            steps == self@.steps,
    {
        self.update_step_counter
    }

    /// Takes a message. Returns whether the host is to advance the layout by
    /// one step: on each tick until `MAX_STEPS` steps are made, and never
    /// after. A click does not set the layout going again.
    pub fn update(&mut self, message: GMessage) -> (advance: bool)
        requires
            old(self).wf(),
        ensures
            final(self).wf(),
            final(self)@ == after(old(self)@, message),
            advance == advances(old(self)@, message),
    {
        match message {
            GMessage::GraphClick(Some(node)) => {
                self.graph_state.active_node = Some(node);
                false
            },
            GMessage::GraphClick(None) => false,
            GMessage::GraphicsTick => {
                let advance = self.update_step_counter < MAX_STEPS;
                if advance {
                    self.update_step_counter += 1;
                }
                self.graph_state.visualization_frac = if self.graph_state.visualization_frac
                    + 1 < CYCLE {
                    self.graph_state.visualization_frac + 1
                } else {
                    0
                };
                advance
            },
        }
    }
}

/// Whatever the messages, the layout has made a step for each tick among
/// them, or as many as were left up to `MAX_STEPS`: from then on a tick
/// changes nothing but the highlight, and no click sets the layout going
/// again. The highlight has gone round its cycle by one place for each tick.
pub proof fn lemma_after_all(app: GraphAppView, messages: Seq<GMessage>)
    requires
        app.steps <= MAX_STEPS,
        app.frac < CYCLE,
    ensures
        after_all(app, messages).steps == if app.steps + ticks_in(messages) <= MAX_STEPS {
            app.steps + ticks_in(messages)
        } else {
            MAX_STEPS as nat
        },
        after_all(app, messages).frac == (app.frac + ticks_in(messages)) % (CYCLE as nat),
    decreases messages.len(),
{
    if messages.len() > 0 {
        lemma_after_all(app, messages.drop_last());
        let a = (app.frac + ticks_in(messages.drop_last())) as int;
        assert((a + 1) % 120 == if a % 120 + 1 < 120 {
            a % 120 + 1
        } else {
            0
        }) by {
            assert(a == 120 * (a / 120) + a % 120) by (nonlinear_arith)
                requires
                    a >= 0,
            ;
            vstd::arithmetic::div_mod::lemma_fundamental_div_mod_converse(
                a + 1,
                120,
                if a % 120 + 1 < 120 {
                    a / 120
                } else {
                    a / 120 + 1
                },
                if a % 120 + 1 < 120 {
                    a % 120 + 1
                } else {
                    0
                },
            );
        }
    }
}

} // verus!
