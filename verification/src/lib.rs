//! Dependency-ordered execution of media-processing graphs.
//!
//! A graph of nodes and connections is put into a processing order, each node
//! is dispatched in that order, the artifacts that nodes produce are threaded
//! through an execution context, and a report is built at the end. The engine
//! never touches a file or a media tool itself: whenever a node needs outside
//! work it hands out a request, and is resumed with the response.

pub mod text;
pub mod error;
pub mod graph;
pub mod order;
pub mod media;
pub mod table;
pub mod context;
pub mod decimal;
pub mod config;
pub mod connections;
pub mod paths;
pub mod validate;
pub mod video_conversion;
pub mod audio_conversion;
pub mod frame_extraction;
pub mod backend;
pub mod handlers;
pub mod comparison;
pub mod executor;
pub mod scan;
pub mod vmaf_analysis;
pub mod video_trimming;
pub mod probe;
pub mod trim_service;
pub mod audio_quality;
