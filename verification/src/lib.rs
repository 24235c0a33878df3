//! The core of a terminal program for connecting to cloud instances: the
//! screens and what input does to them, the filtered and sorted lists they
//! show, and the settings and the connection history behind them.
//!
//! Nothing here draws, reads input or touches a file. A component takes an
//! input event and answers with an action; the controller in [`app`] takes
//! an event and answers with a command for its owner. Each component is
//! described by a model of plain values and by the transitions of that
//! model, and the code is proved to follow them.
pub mod app;
pub mod components;
pub mod history;
pub mod instance;
pub mod name_map;
pub mod order;
pub mod selection;
pub mod text;
