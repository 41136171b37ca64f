//! The text and decision logic of a Discord music bot: splitting chat
//! commands into words, preparing queue, playlist, track and lyrics
//! messages, and choosing what each voice command does next.

pub mod strings;
pub mod string_to_vec;
pub mod string_to_vector;
pub mod message;
pub mod lyrics;
pub mod queue;
pub mod playlist;
pub mod sources;
pub mod utils;
pub mod music_bot;
pub mod commands;
