//! sortcrab — organise files into categorised, semester-dated folders.
//!
//! The library holds the logic: the extension rules table, classification,
//! period labels, the rendering of the configuration file, the sort and move
//! state machines, and the rendering of the move tree. The filesystem, the
//! command line and logging are driven by the application around it.

pub mod text;
pub mod cli;
pub mod config;
pub mod organize;
pub mod error;
