//! What the display backends decide.
pub mod connectors;
pub mod device;
pub mod frames;
pub mod modes;
pub mod surfaces;
