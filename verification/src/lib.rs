//! The integer core of a small software renderer: indexed polygon meshes
//! and a pixel canvas that is filled one horizontal span at a time.

pub mod bitmap;
pub mod canvas;
pub mod canvas_laws;
pub mod figure;
pub mod figure_laws;
pub mod ini_laws;
pub mod ini_reader;
pub mod scene;
pub mod text;
