//! Campaign-scoped state engine for a tabletop-RPG game-master dashboard.
//!
//! The library keeps the whole dashboard state — campaigns, NPC/adversary
//! entities, countdown trackers, per-campaign fear level, dice-roll history,
//! campaign notes and player characters — in one [`store::Store`] value and
//! verifies every rule that mutates it: range clamping, damage thresholds,
//! stress overflow, campaign scoping and cascade deletion.  Durable storage
//! and change broadcasting are left to the embedding application, which
//! persists the store after each successful mutation.

pub mod campaign;
pub mod countdown;
pub mod dice;
pub mod entity;
pub mod error;
pub mod fear_tracker;
pub mod idgen;
pub mod migration;
pub mod player_character;
pub mod state_manager;
pub mod store;
