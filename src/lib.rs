//! A registry of portable application bundles: identifiers and display names
//! derived from bundle file names, the text of desktop-menu entries, and the
//! decisions of importing, listing, removing and launching bundles, computed
//! from what the storage directory holds.
pub mod desktop;
pub mod icon;
pub mod identity;
pub mod layout;
pub mod registry;
mod text;

pub use identity::{parse_appimage_name, sanitize_filename};
pub use registry::AppImageEntry;
