//! The decisions of a global keyboard remapper, verified.
//!
//! Physical key events go in, and what to do on a virtual keyboard comes out.
//! Nothing here opens a device, sleeps or reads a clipboard: the functions
//! return [`action::Action`]s, and the program around this library performs them.

pub mod action;
pub mod caps;
pub mod devices;
pub mod event;
pub mod find;
pub mod handler;
pub mod keys;
pub mod laws;
pub mod map;
pub mod modifiers;
pub mod num;
pub mod promises;
pub mod search;
pub mod send;
pub mod tray;
