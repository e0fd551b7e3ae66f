//! A text-mode console driver: renders a stream of ASCII bytes into a
//! fixed-size character grid, emulating a scrolling teletype that always
//! composes on the bottom row.

pub mod laws;
pub mod vga;
