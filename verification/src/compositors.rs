//! The two compositor backends.

pub mod compositor;
pub mod hypr;
pub mod niri;
