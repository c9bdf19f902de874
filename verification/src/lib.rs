//! Integer and text logic of a small ray tracer: the scene register, render
//! cells and sampling, frame control, settings and file formats, each with a
//! contract that states what it computes.

pub mod learning;
pub mod summary;
pub mod renderer;
pub mod sampling;
pub mod post_processing;
pub mod text;
pub mod args;
pub mod window;
pub mod frame_control;
pub mod animation;
pub mod scene;
pub mod material;
pub mod config;
pub mod helper;
pub mod mesh;
pub mod output;
