//! The per-frame interaction core of an interactive map-visualization
//! editor: the camera transform, cursor-to-entity selection, stateful
//! interaction plugins with single-claim input dispatch, per-frame
//! rendering hints, persisted camera state, and a deduplicated
//! diagnostic-backtrace collection.

pub mod canvas;
pub mod follow;
pub mod geom;
pub mod hints;
pub mod input;
pub mod instrument;
pub mod objects;
pub mod persist;
pub mod selection;
pub mod ui;
pub mod world;
