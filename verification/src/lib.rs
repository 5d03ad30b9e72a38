//! Launch orchestration for a game that is played at a stretched display
//! resolution.
//!
//! The library decides and its host performs. It holds
//!
//! - [`resolution`]: display resolutions and the list offered for selection;
//! - [`selection`]: what the user chose to play at;
//! - [`config`]: the launcher's settings, and the edits that bring the game's
//!   settings file into its stretched form and back;
//! - [`process`]: whether the game runs, judged from a listing of processes,
//!   and what a waiting host does next;
//! - [`session`]: the state machine of one run, from launch to restoration;
//! - [`console`]: the bounded record of what a session did;
//! - [`text`]: the text operations that the others are built from;
//! - [`types`]: the enumerations shared with the host.
//!
//! Display calls, file accesses, process listings and waiting are the host's.

pub mod config;
pub mod console;
pub mod process;
pub mod resolution;
pub mod selection;
pub mod session;
pub mod text;
pub mod types;
