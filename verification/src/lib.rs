//! A collection of notes that mention one another, as a graph to look at.
//!
//! - `links` finds the mentions in the text of a note.
//! - `corpus` holds the notes by identifier, `graphreader` builds their
//!   graph with the report on it, and `integrity` proves what holds of every
//!   graph built so. `forcegraph` is the graph itself, as the layout
//!   simulation takes it.
//! - `viewport` places the layout on the drawing surface and picks nodes
//!   from it; `graphcanvas` takes the pointer's events and draws the picture.
//! - `graphapp` keeps the selection and counts the steps of the layout,
//!   `plugin` takes the turns of the channel to the editor, and `launch`
//!   reads the command line.

pub mod corpus;
pub mod forcegraph;
pub mod graphapp;
pub mod graphcanvas;
pub mod graphreader;
pub mod integrity;
pub mod launch;
pub mod links;
pub mod plugin;
pub mod viewport;
