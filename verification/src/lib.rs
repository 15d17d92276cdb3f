//! Names audio tracks by their acoustic fingerprint.
//!
//! A fingerprint is looked up at the AcoustID service. The answer, which may
//! hold many recordings on many releases, some of them incomplete, is
//! resolved to one metadata record or to none. The record can be written
//! into the tag of the track's file, and names the file.
//!
//! The library computes and decides; it neither runs a program nor reads a
//! file nor talks to the service. `session` tells its caller when to do so.

pub mod acoustid_api;
pub mod download;
pub mod filtering;
pub mod fpcalc;
pub mod local;
pub mod metadata;
pub mod resolve;
pub mod response;
pub mod selection;
pub mod session;
pub mod tags;
pub mod text;
pub mod youtube;
