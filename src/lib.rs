//! Moderation, verification and community-points logic of a chat-server bot.
//!
//! Every function here works on plain values: the gateway client, the data
//! stores and the rendering of replies sit outside this crate and hand their
//! results in as arguments.

pub mod leveling;
pub mod text;
pub mod verification;
pub mod data;
pub mod models;
pub mod moderation;
pub mod points;
pub mod settings;
pub mod dispatch;
pub mod folding;
