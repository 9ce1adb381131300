//! Server core for the Audiosurf legacy online services: song identity
//! resolution, score submission with a skill-point leaderboard, the legacy
//! wire formats, and the session and ticket caches, with machine-checked
//! contracts over a relational-store model.

pub mod admin;
pub mod engine;
pub mod errors;
pub mod game_types;
pub mod gameplay;
pub mod leaderboard;
pub mod merge;
pub mod metadata;
pub mod models;
pub mod modifiers;
pub mod musicbrainz;
pub mod numbers;
pub mod openid;
pub mod queries;
pub mod requests;
pub mod resolver;
pub mod sessions;
pub mod shouts;
pub mod skill;
pub mod store;
pub mod strings;
pub mod users;
pub mod wire;
