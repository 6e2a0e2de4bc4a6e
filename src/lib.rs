//! Paint subsystem: buffer pool, layer-tree projection, tile dispatch and
//! the paint coordinator's message handling, with their contracts.

pub mod types;
pub mod geometry;
pub mod buffer_pool;
pub mod scene;
pub mod layer_tree;
pub mod dispatch;
pub mod tile;
pub mod paint_task;
pub mod canvas;
