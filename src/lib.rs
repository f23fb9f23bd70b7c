//! Resolution and acquisition of the ROM files that an emulator needs:
//! dependency expansion over a manifest, artifact naming, download progress
//! pacing, archive integrity checks and selective extraction.

pub mod manifest;
pub mod naming;
pub mod progress;
pub mod archive;
pub mod acquire;
pub mod profile;
