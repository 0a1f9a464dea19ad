//! Twelve-tone melodies: a tone row that uses every pitch class exactly once,
//! paired with twelve note lengths that fill a whole number of bars.

pub mod duration;
pub mod error;
pub mod melody;
pub mod options;
pub mod pitch;
mod random;
pub mod rhythm;
pub mod text;
pub mod tone_row;
