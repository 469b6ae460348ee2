//! The rules of a two-player token game: where tokens are, how they move,
//! what behaviors they trigger and what the server tells the client.
pub mod text;
pub mod id_types;
pub mod location_ids;
pub mod rng;
pub mod locations;
pub mod token_data;
pub mod token_instance;
pub mod registry;
pub mod context_keys;
pub mod game_context;
pub mod keyed;
pub mod animation_presets;
pub mod prompts;
pub mod instruction;
pub mod game_communicator;
pub mod board;
pub mod player;
pub mod error;
pub mod state_resources;
pub mod state_machine;
pub mod tag;
pub mod turn;
pub mod behaviors;
pub mod actions;
pub mod process;
pub mod start;
pub mod callbacks;
pub mod session;
pub mod laws;
pub mod finder;
pub mod history;
