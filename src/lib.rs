//! A synchronous, push-based stream library: a source pushes its values one
//! at a time into a sink, through a chain of operator stages.
pub mod observer;
