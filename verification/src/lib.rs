//! Verified core of a media organizer: it classifies photo and video files,
//! works out the date a medium was created, names the dated folder it is
//! copied to, avoids overwriting different files of the same name and skips
//! byte-identical duplicates.

pub mod text;
pub mod date;
pub mod metadata;
pub mod filename;
pub mod digest;
pub mod copier;
pub mod scanner;
pub mod system;
pub mod terminal;
pub mod session;
