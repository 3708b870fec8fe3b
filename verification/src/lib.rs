//! The turn-based core of a tile-grid roguelike.
//!
//! One player-controlled entity moves on a bounded grid of tiles. Every
//! accepted key press moves the player (unless a wall is in the way) and
//! triggers exactly one pass of the system pipeline: first the viewsheds that
//! went stale are recomputed, then every enemy checks whether it can see the
//! player. A two-state run/pause machine makes sure that this happens once per
//! player action and never once per rendered frame.
//!
//! The crate does no input polling and no drawing: a frame driver hands in
//! the key of the frame and gets back the reactions it should show. Lines of
//! sight are computed by the shadow casting of `rltk`.

pub mod components;
pub mod enemy_ai_system;
pub mod laws;
pub mod map;
pub mod player;
pub mod sight;
pub mod state;
pub mod visibility_system;
pub mod world;

pub use components::{Coord, Enemy, Entity, EntityView, Name, Player, Position, Viewshed, ViewshedView};
pub use enemy_ai_system::{reaction_views, EnemyAI, Reaction, ReactionView};
pub use map::{GridView, TileMap, TileType, MAX_SIDE};
pub use player::{movement_intent, player_input, try_move_player, Key};
pub use sight::{sight, MAX_RANGE};
pub use state::{RunState, State, StateView};
pub use visibility_system::{Sighting, VisibilitySystem};
pub use world::{SetupError, World, WorldView};
