//! Selection of release assets for a platform and discovery of the
//! executable inside an unpacked release, with machine-checked contracts.

pub mod text;
pub mod platform;
pub mod resolver;
pub mod archive;
pub mod locator;
pub mod install;
pub mod retry;
pub mod catalog;
