//! Layout and pagination engine for a fixed-width thermal receipt printer.
//!
//! The crate accumulates styled text into lines of a bounded visual width,
//! wrapping at whitespace where possible, and serialises the accumulated
//! lines into a sequence of device commands with optional page-cut
//! pagination.  Transports (USB, network socket, console) consume the
//! command sequence outside of this crate.

use vstd::prelude::*;

pub mod builder;
pub mod commands;
pub mod cp437;
pub mod dispatch;
pub mod display;
pub mod elements;
pub mod line;
pub mod markdown;
pub mod render;
pub mod strutil;
pub mod template;
pub mod tiptap;

verus! {

/// Maximum visual columns per printed line on the target device.
pub const CPL: u8 = 48;

} // verus!
