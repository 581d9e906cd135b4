//! A deferred UI composition engine for egui in a bevy world.
//!
//! UI-building code describes nested regions and widgets as a queue of
//! [`command::Command`]s. The queue is drained in order against a stack of
//! open regions, and every command decides which toolkit operation has to be
//! carried out: it hands out [`effect::Effect`]s, and whoever drives the
//! engine performs them with egui. The bookkeeping, that is the stack of
//! open regions and the registry of cached units, lives in the bevy world as
//! resources.
//!
//! What holds of every script is stated and proved in [`laws`].

pub mod command;
pub mod container;
pub mod ctx;
pub mod effect;
pub mod laws;
pub mod prelude;
pub mod responder;
pub mod root;
pub mod state;
pub mod system;
pub mod ui;
pub mod widget;
