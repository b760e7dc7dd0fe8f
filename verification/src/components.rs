//! The device controllers: each turns a request into the program to run,
//! and what the device reports into a state to show and to announce.

pub mod brightness;
pub mod components;
pub mod microphone;
pub mod system;
pub mod volume;
pub mod wifi;
