//! System-wide key-chord matching.
//!
//! A chord is a non-empty sequence of steps, each a primary key together with
//! the modifier keys that must be held with it.  The matching engine in
//! [`binding_key_mgr`] consumes classified key events one at a time and
//! reports which registered chords were completed.  The types in [`listener`]
//! carry the engine's decisions across the boundary to a host that owns the
//! capture thread, the event source and the callbacks.

pub mod binding_key_mgr;
pub mod listener;
pub mod virtual_key;

pub use binding_key_mgr::BindingKey;
pub use virtual_key::KeyCode;
