//! The presentation assembly and navigation engine of a song-lyrics
//! presenter, together with the value types around it: source files, colour
//! and CSS text building, search over source files, and the program's
//! settings model.

pub mod conversions;
pub mod css;
pub mod presentation;
pub mod search;
pub mod settings;
pub mod slides;
pub mod sourcefiles;
pub mod states;
