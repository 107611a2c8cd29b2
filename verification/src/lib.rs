//! Verified core of the nacre desktop shell: configuration model, compositor
//! state tracking, bar module resolution, application indexing and search,
//! notification bookkeeping and the small text parsers these rely on.

pub mod text;
pub mod config;
pub mod ipc;
pub mod bar;
pub mod launcher;
pub mod notification;
pub mod graphics;
pub mod lock;
pub mod wasm;
