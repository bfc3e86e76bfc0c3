//! Intent state machine of a face display: a remote controller sends intent
//! names, a render loop picks the face, audio and timing of each intent, and
//! two modal sub-loops (a chronometer and a weather display) take over the
//! screen until they are told they are done.
//!
//! Everything here decides; nothing here draws, plays, sleeps or listens.
//! The program around the library performs those actions and hands back
//! what happened.

mod text;
mod pick;
pub mod number;
pub mod error;
pub mod render;
pub mod chronometer;
pub mod weather;
pub mod config;
pub mod table;
pub mod intent;

pub use crate::intent::State;
pub use crate::text::text_eq;
pub use crate::table::{AssetTable, IntentTable, TimingTable};
