//! Verified core of a small horror game: the phonetic front end of its
//! formant voice, its dialogue scripts (model, builders, `.rat` text
//! format and runtime), the discovery database and a few pieces of
//! dialogue-panel layout logic.

pub mod text;
pub mod phonetic;
pub mod voice;
pub mod script;
pub mod script_ron;
pub mod rat_format;
pub mod asset;
pub mod discovery;
pub mod dialogue;
pub mod ending;
pub mod panel;
pub mod settings;
pub mod menu;
pub mod inventory;
pub mod npc;
pub mod door;
pub mod sky;
