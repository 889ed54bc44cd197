//! Verified core of the GStudy rendering playground: the shader
//! preprocessor, shader variant keys, material and scene bookkeeping,
//! GPU buffer sizing policies and the CPU canvas.

pub mod material;
pub mod preprocessor;
pub mod tshader;
pub mod compiler;
pub mod text;
pub mod event;
pub mod geometry;
pub mod modules;
pub mod render;
pub mod util;
pub mod window;
pub mod ui;
pub mod gpu_buffer;
pub mod canvas;
pub mod executor;
pub mod scene;
pub mod renderer;
pub mod pipeline;
pub mod ui_input;
pub mod task_executor;
