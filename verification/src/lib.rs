//! The verified core of a token-usage monitor.

pub mod actions;
pub mod atomcode;
pub mod ball;
pub mod clock;
pub mod codearts;
pub mod files;
pub mod floating;
pub mod handling;
pub mod json;
pub mod model;
pub mod monitor;
pub mod paths;
pub mod region;
pub mod scan;
pub mod slot;
pub mod snapshot;
pub mod sqrt;
pub mod stats;
pub mod text;
