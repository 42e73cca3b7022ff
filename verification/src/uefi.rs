//! Windows UEFI boot guard: sidecar layout, validation pipeline, rollback floor, signed
//! sidecars.
pub mod manifest;
pub mod pipeline;
pub mod rollback;
pub mod signed_manifest;
