//! Firmware and file integrity enforcement: boot-time validation of signed, Merkle-indexed,
//! Hamming-protected sidecars; kernel protected-scope enforcement; attestation; and the
//! provisioning, verification and recovery logic around them.

// Formats and codecs.
pub mod codec;
pub mod text;
pub mod error;
pub mod crypto;
pub mod digest;
pub mod ecdsa;
pub mod hamming;
pub mod merkle;
pub mod parser;
pub mod state_db;
pub mod uefi;

// Validation.
pub mod observer;
pub mod boot_validate;
pub mod integrity_gate;
pub mod boot_guard;
pub mod deployment_trust;

// Kernel enforcement.
pub mod enforcement_policy;
pub mod lsm_gate;
pub mod appraisal;
pub mod deny_monitor;
pub mod ebpf_loader;
pub mod ima_policy;
pub mod siem_sink;

// Keys, self-tests, attestation and licensing.
pub mod secrets;
pub mod constants;
pub mod kdf;
pub mod fips;
pub mod phasor;
pub mod attestation;
pub mod host_init;

// Command-line and management-plane logic.
pub mod cli;
pub mod auth;
pub mod metrics;
pub mod api_guard;
pub mod siem_connectors;
