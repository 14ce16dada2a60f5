//! Verified core of the Elden Ring read-only overlay: configuration rules, hotkey parsing,
//! the challenge-mode tracker, layout sections, game-data tables and the view model.

pub mod text;
pub mod types;
pub mod hotkey;
pub mod challenge;
pub mod layout;
pub mod layout_rules;
pub mod config;
pub mod keyed;
pub mod lot_flags;
pub mod checks_table;
pub mod boss_table;
pub mod tables;
pub mod view_model;
pub mod checks_panel;
pub mod metrics;
pub mod reader;
pub mod field_area;
pub mod frame_timing;
pub mod overlay_state;
pub mod process;
pub mod update;
pub mod version;
pub mod game_version;
pub mod poll;
pub mod panel_text;
pub mod reload;
pub mod extractor;
pub mod config_keys;
