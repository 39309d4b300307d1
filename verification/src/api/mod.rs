//! What the handlers of the Engine API decide.

pub mod create;
pub mod view;
