//! Static site generation: content classification, frame (layout) chains,
//! page composition, destination mapping and the decisions of the build and
//! watch loops, over a plain model of paths and file-system facts.

pub mod error;
pub mod text;
pub mod path;
pub mod role;
pub mod frames;
pub mod compose;
pub mod site;
pub mod processor;
pub mod builder;
pub mod watch;
pub mod config;
pub mod aws;
pub mod x_string;
