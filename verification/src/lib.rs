//! Verified core of a brute-force search for an ed25519 keypair whose public
//! key, read as a big-endian integer, is as large as possible.  The library
//! holds the metric, the checkpoint-record codec and recovery, and the
//! decision logic of the controller and the workers; threads, channels and
//! file handling live outside it.

pub mod checkpoint;
pub mod controller;
pub mod hexcode;
pub mod keypair;
pub mod threshold;
pub mod worker;
