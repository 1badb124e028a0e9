//! A concourse resource for npm packages: it checks a registry for new
//! versions of a package, fetches a version's tarball and publishes or tags
//! packages. This crate holds the resource's logic; reading and writing
//! files and talking to the registry are left to its caller.

pub mod assoc;
pub mod codec;
pub mod json;
pub mod npm;
pub mod resource;
pub mod text;
pub mod utils;
pub mod version;
