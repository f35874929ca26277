//! Core of a frame-processing pipeline: wire framing, the bounded history of
//! plugin results, plugin supervision and the dispatch schedule.

pub mod config;
pub mod data_manager;
pub mod data_plugins;
pub mod document;
pub mod framing;
pub mod gui_connector;
pub mod image;
pub mod input_plugins;
pub mod plugin;
pub mod protocol;
pub mod scheduler;
