# dfim

Firmware and file integrity enforcement, written in Verus: the boot-time and run-time
integrity logic is executable Rust whose behaviour is stated in `requires` / `ensures`
contracts and proved.

## Layout

- `src/` — the verified library.
  - Formats and codecs: `codec`, `text`, `digest`, `hamming` (single-error-correcting Hamming coding of
    metadata), `merkle`, `parser` (DFIMBOOT block streams), `state_db` (authenticated state
    envelopes), `uefi::manifest`, `uefi::signed_manifest` (P-256 signed sidecars),
    `uefi::rollback`.
  - Validation: `boot_validate`, `integrity_gate`, `uefi::pipeline`, `boot_guard` (the UEFI
    boot manager hand-off decision).
  - Kernel enforcement: `enforcement_policy`, `lsm_gate`, `appraisal`, `deny_monitor`,
    `ebpf_loader`, `ima_policy`, `siem_sink`.
  - Key material and attestation: `kdf`, `fips`, `ecdsa`, `crypto`, `attestation`,
    `host_init` (evaluation licence state).
  - Command-line and management-plane logic: `cli::*`, `auth`, `metrics`, `api_guard`,
    `siem_connectors`.
- `tests/` — executable tests of the library.
- `app/` — the command-line provisioner: argument handling, file and device I/O, and the
  JSON and telemetry sinks, around the library.

Laws that span several functions are public proof functions named `law_*`, next to the
functions they relate.
