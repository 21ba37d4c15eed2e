//! Library core of the syswatch system monitor: tab and key handling,
//! user configuration, the settings popup model, power / GPU report
//! parsers and the insight ranking rules.

pub mod text;
pub mod num;
pub mod config;
pub mod theme;
pub mod settings;
pub mod app;
pub mod power;
pub mod gpu;
pub mod insights;
pub mod procs;
pub mod sampler;
pub mod diskio;
