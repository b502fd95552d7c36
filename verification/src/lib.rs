//! Engine that turns a game controller's buttons and sticks into pointer
//! motion, key presses and scripted actions.
//!
//! The engine decides and computes; it touches no device. Whoever runs it
//! polls the controller, hands each poll result and each event to the
//! [`perform::Dispatcher`], runs the press or release of the actions that
//! come back, and carries out the plans of requests that those return.
//!
//! All analog quantities are whole numbers of thousandths, and carried
//! pointer fractions are millionths of a pixel, so that every step is exact
//! integer arithmetic: nothing drifts, and a release restores exactly what a
//! press changed.
//!
//! - [`buttons`], [`keys`]: the inputs of a controller and what can be
//!   synthesised.
//! - [`actions`]: the catalogue of actions and what their press and release
//!   do.
//! - [`bindings`]: the table from buttons to actions.
//! - [`config`]: the tunable parameters, and the merge of a fresh
//!   configuration into the document on disk.
//! - [`document`], [`reader`]: documents as trees of plain values, read
//!   through `toml_edit`.
//! - [`motion`], [`perform`]: the motion integrator and the dispatcher.
//! - [`lua`]: what the script host lets a script read and write.
//! - [`setup`]: the entries of the tray menu.
//! - [`fixed`]: fixed-point arithmetic.

pub mod actions;
pub mod bindings;
pub mod buttons;
pub mod config;
pub mod document;
pub mod fixed;
pub mod keys;
pub mod lua;
pub mod motion;
pub mod perform;
pub mod reader;
pub mod setup;
