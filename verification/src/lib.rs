//! Verified core of the Lightspeed LED lighting controller.

pub mod palette;
pub mod text;
pub mod dmx;
pub mod tempo;
pub mod midi;
pub mod pads;
pub mod effects;
pub mod hex;
pub mod config;
