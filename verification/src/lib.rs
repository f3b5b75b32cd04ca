//! Core logic of an interactive Game-of-Life visualizer: the generation
//! engine, the scanline triangle geometry shared by rendering and hit
//! testing, the grid/screen coordinate mapping, the control-layout hit
//! tests, and the plaintext pattern parser.  Everything here is pure
//! integer computation; the event loop, window and file dialog live in
//! the driver around this library.

pub mod arith;
pub mod controls;
pub mod draw;
pub mod life;
pub mod pattern;
pub mod ui;
