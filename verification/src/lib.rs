//! A terminal panel's core: the bytes that key events stand for, the wakeup
//! channel between the terminal engine and the foreground, and the drawer
//! that turns snapshots of the terminal's grid into pixels, repainting only
//! the cells whose background changed.

pub mod color;
pub mod drawer;
pub mod event;
pub mod grid;
pub mod paint;
pub mod pty_driver;
pub mod surface;
pub mod term;
