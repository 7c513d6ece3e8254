//! The compositor's state.
pub mod commit;
pub mod cursor;
pub mod decorations;
pub mod desktop;
pub mod focus;
pub mod interaction;
pub mod lifecycle;
pub mod locking;
pub mod moves;
pub mod output;
pub mod overrides;
pub mod placement;
pub mod popup;
pub mod refocus;
pub mod relayout;
pub mod scene;
pub mod screens;
pub mod session;
pub mod tiles;
pub mod tiling;
pub mod workspace;
