//! What a client decides: which ids it gives out, which calls it waits for,
//! and what each frame of the server means for them.

pub mod background;
pub mod builder;
pub mod effects;
pub mod ids;
pub mod inbound;
pub mod laws;
pub mod manager;
pub mod pending;
pub mod subscription;
