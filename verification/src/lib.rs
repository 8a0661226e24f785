//! A directory-mirroring engine driven by a push-based feed of filesystem
//! change notifications.
//!
//! Raw notifications are normalized into canonical operations, buffered and
//! debounced, reduced to one final operation per path, and turned into a plan
//! of filesystem actions that replicate the net effect under a mirror root.

pub mod apply;
pub mod buffer;
pub mod debounce;
pub mod intake;
pub mod normalize;
pub mod ops;
pub mod paths;
pub mod resolve;
