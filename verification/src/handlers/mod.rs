//! What the keys do: the decisions behind each mode's key handling, written
//! as functions from the current state to the next state and the work the
//! caller has left to do.
pub mod filter;
pub mod input;
pub mod keys;
pub mod normal;
pub mod sql_pad;
pub mod mouse;
pub mod overlay;
