//! Core runtime pieces for a 2D entity-based game: streaming activation
//! gating, a pluggable collision-tag matching protocol, sprite animation
//! playback, and an idempotent sprite-sheet handle cache.

pub mod animation;
pub mod asset_path;
pub mod axis;
pub mod collision;
pub mod entity;
pub mod load_state;
pub mod player;
pub mod sprite_sheet;
