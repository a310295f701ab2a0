//! A scene graph that takes versioned content from independent pipelines,
//! keeps what is current, and gives superseded content back exactly once.
//!
//! `scene` holds the graph and its operations, `model` says what they do,
//! and `laws` proves what follows for every scene. `resource_cache` holds the
//! draw lists that the graph refers to by handle. `builder` and
//! `display_item` describe what is submitted, and `reader` decides how a
//! written scene description becomes display items and frames.

pub mod builder;
pub mod display_item;
pub mod geometry;
pub mod ids;
pub mod laws;
pub mod model;
pub mod reader;
pub mod resource_cache;
pub mod scene;
mod table;
