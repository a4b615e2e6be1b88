//! A two-party message protocol over one duplex named endpoint: the message
//! catalog, the wire codec, and the channel's decisions as a state machine.

pub mod catalog;
pub mod codec;
pub mod pipe;
pub mod utf16;
