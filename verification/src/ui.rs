//! Decisions of the terminal interface: what a cell or a row shows, where
//! the list scrolls to, and what the footer says. Drawing itself happens
//! in the application.
pub mod color;
pub mod fmt;
pub mod footer;
pub mod list;
pub mod tile;
pub mod size;
