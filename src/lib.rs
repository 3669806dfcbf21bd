//! Passive fingerprint profiling: JA4 / User-Agent consistency checking,
//! per-host profile assembly, and the payload shaping done by the collectors.

pub mod text;
pub mod json;
pub mod ja4;
pub mod observation;
pub mod assembler;
pub mod connections;
