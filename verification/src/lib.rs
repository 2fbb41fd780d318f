//! A self-describing executable container and the installation transaction
//! that unpacks it.
//!
//! A bundle is a stub executable followed by named payloads, a metadata table
//! and a fixed-width footer that locates the table. The installer reads its own
//! bundle back and installs the application inside a transaction that either
//! commits or restores the machine to its previous state.

pub mod application;
pub mod bytes;
pub mod container;
pub mod decimal;
pub mod dialogs;
pub mod exe_packager;
pub mod footer;
pub mod metadata;
pub mod package;
pub mod plugin_config;
pub mod process;
pub mod quarantine;
pub mod rollback;
pub mod text;
pub mod transaction;
pub mod uninstall;
pub mod webview2;

pub use crate::container::{ExtractError, PackError};
pub use crate::exe_packager::{ExePackager, SetupManifest};
pub use crate::metadata::{Blob, MetadataEntry};
pub use crate::package::{extract_package, metadata_span, PackageParts, SetupPackage};
