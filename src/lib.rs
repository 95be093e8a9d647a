//! Checks the files of a directory tree against a manifest of MD5 digests.
//!
//! Files are matched to manifest entries by bare file name. Each hashed file is
//! tallied as a pass or a fail as it is recorded, and a report classifies every
//! recorded file afresh against the manifest.
pub mod digest;
pub mod engine;
pub mod manifest;
pub mod report;
pub mod text;
