//! The provisioner's logic: hex key material, raw-device offsets, TPM data shaping, audit and
//! report records, provisioning, verification and recovery decisions. Reading and writing
//! files and devices, and talking to the TPM, is left to the caller.
pub mod hex;
pub mod platform;
pub mod tpm;
pub mod report;
pub mod telemetry;
pub mod raw_stress;
pub mod verify;
pub mod provision;
pub mod recovery;
