//! Build-time metadata for outpost application packages.
//!
//! The configuration entries of a task are projected into its properties and
//! capabilities, merged with the versions of the package and of its companion
//! packages, and serialised into the artifact that the linker is pointed at.

pub mod error;
pub mod text;
pub mod json;
pub mod config;
pub mod package;

pub use config::{task_metadata, ConfigEntry};
pub use error::Error;
pub use package::{gen_package_metadata, get_version, PackageFact, PackageOutput};
