//! Render bundles: sequences of drawing commands that are recorded once,
//! compiled into a checked and reduced command list, and replayed into any
//! number of render passes.
//!
//! An encoder ([`encoder`]) records commands one at a time into a raw stream
//! ([`command`]). The compiler ([`compile`]) walks the stream once: it checks
//! every command against the resources of the device ([`resource`]) and its
//! limits, simulates what is bound ([`state`]), leaves out the commands that set
//! what is bound already, and collects what the bundle uses ([`track`]). The
//! interpreter ([`bundle`]) replays the compiled commands as native calls.
//!
//! What holds of every bundle is proved in [`laws`], [`observe`] and
//! [`manifest`]: the draws of a bundle see what the draws of the recorded stream
//! saw, the recorded order is kept, a resource of another device is never
//! compiled, and the scope of the bundle holds all that its commands use.

pub mod bundle;
pub mod command;
pub mod compile;
pub mod context;
pub mod encoder;
pub mod error;
pub mod error_buffer;
pub mod flags;
pub mod format;
pub mod id;
pub mod laws;
pub mod manifest;
pub mod observe;
pub mod push_constant;
pub mod resource;
pub mod state;
pub mod track;
