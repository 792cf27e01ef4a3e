//! Game-library core: platform catalogue and ROM classification, emulator
//! adapters, controller-profile materialisation and the config/text formats
//! they read and write.
use vstd::prelude::*;

pub mod text;
pub mod pathname;
pub mod bindings;
pub mod controller_write;
pub mod hotkeys;
pub mod models;
pub mod config;
pub mod error;
pub mod adapters;
pub mod iso9660;
pub mod platforms;
pub mod sfo;
pub mod console_pads;
pub mod launchbox;
pub mod library;
pub mod metadata;
pub mod achievements;
pub mod archive;
pub mod paths;
pub mod save_states;
pub mod saves;
pub mod controller;
pub mod registry;
pub mod plugins;

verus! {

} // verus!
