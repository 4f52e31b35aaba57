//! Engine of a live process dashboard: bounded metric history, log tailing
//! and scrolling, listening-port discovery, and the controller that ties
//! them to key presses and refresh ticks.

pub mod history;
pub mod text;
pub mod ports;
pub mod paint;
pub mod logs;
pub mod scroll;
pub mod process;
pub mod dashboard;
pub mod panels;
