//! Gateway side of the Lemonbeat radio protocol: addressing, device
//! descriptions, firmware containers and uploads, inclusion, and the rules by
//! which devices are reached, kept and forgotten.
//!
//! Everything in here computes on plain values. Sockets, files, timers and the
//! message codecs live in the application around this library; it performs the
//! actions that the functions of this crate decide on and hands back what came
//! of them.

pub mod abortable_sleep;
pub mod bigint;
pub mod comm;
pub mod config;
pub mod crypto;
pub mod device;
pub mod digest;
pub mod error;
pub mod hexcode;
pub mod net;
pub mod lsdl;
pub mod lwm2m;
pub mod radiomodule;
mod random;
pub mod service;
pub mod storage;
pub mod time;
pub mod traits;
pub mod udp;
pub mod utils;

pub use error::Error;
