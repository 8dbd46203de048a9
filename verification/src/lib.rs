//! Keeps named directories in step with their mirrors under one store root.
//!
//! A registry ([`config`]) binds names to live directories; each has a
//! mirror below the store root. The engine ([`app`]) adds pairs, and
//! exports and imports them: it fingerprints both sides of a pair
//! ([`util::dir_hash`]), and where they differ it has the side that the
//! operation favours copied over the other ([`util::copy_directory`]). The
//! engine touches no file itself: it asks its host ([`host`]) for one step
//! at a time. What holds of every run of the engine is proved in [`trace`].

pub mod app;
pub mod cli;
pub mod config;
pub mod error;
pub mod hook;
pub mod host;
pub mod trace;
pub mod util;
