//! The logic of Audio Mirror: one captured source played on any number of
//! outputs.

pub mod audio;
pub mod config;
pub mod controls;
pub mod devices;
pub mod dsp;
pub mod engine;
pub mod float;
pub mod i18n;
pub mod install;
pub mod ring;
pub mod text;
pub mod tray;
pub mod updater;
