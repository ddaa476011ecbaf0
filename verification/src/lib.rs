//! Engine core logic: object collections, asset and resource bookkeeping,
//! thread synchronisation decisions, monitoring statistics and audio data layout.

pub mod events;
pub mod objects;
pub mod audio;
pub mod sync;
pub mod monitor;
pub mod idmap;
pub mod ids;
pub mod logic;
pub mod assets;
pub mod queue;
pub mod render;
pub mod renderer;
pub mod resources;
pub mod threads;
pub mod view;
pub mod win32;
pub mod x11;
