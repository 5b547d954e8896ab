//! Lumen's game rules: the decisions and bookkeeping behind a calm,
//! first-person open world that reawakens as shrines are rekindled.
//!
//! Each module holds the logic of one part of the game, stated with exact
//! contracts over plain values: the game-state machine ([`states`]), the
//! settings presets ([`settings`]), the menus ([`menu`]), photo mode
//! ([`photo`]), shrine progress and its persistence ([`beacons`]), the rekindle
//! prompt ([`interact`]), on-screen text ([`text`]), the terrain lattice hash
//! ([`terrain`]), the terrain index buffer ([`world`]) and landmark kinds
//! ([`poi`]).

pub mod beacons;
pub mod interact;
pub mod menu;
pub mod photo;
pub mod poi;
pub mod settings;
pub mod states;
pub mod terrain;
pub mod text;
pub mod world;
