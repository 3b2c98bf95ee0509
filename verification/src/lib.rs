//! Verified core of the MPRIS "now playing" panel applet: which player the
//! panel follows, what it shows of it, how album art is cached, and how the
//! applet's state answers the user's input.

pub mod text;
pub mod path;
pub mod player;
pub mod window;
pub mod artwork;
pub mod cache;
pub mod metadata;
