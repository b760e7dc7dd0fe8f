//! Desktop session helper: keyboard-layout switching across two compositor
//! backends, with a most-recently-used history of layouts.

pub mod acpi;
pub mod args;
pub mod components;
pub mod compositors;
pub mod config;
pub mod layout;
pub mod logger;
pub mod manager;
pub mod notifier;
pub mod search;
pub mod sequence;
pub mod text;
