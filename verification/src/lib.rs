//! A detector module for a shell-prompt renderer: decide from a directory
//! listing whether the directory looks like a .NET project and, when it
//! does and the toolchain answers a version query, assemble a styled
//! prompt segment carrying the normalized version. Every failure along the
//! way collapses to silent absence.

pub mod classify;
pub mod dotnet;
pub mod style;
pub mod version;
