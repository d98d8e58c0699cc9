//! Rewrites the platform identity of a boot-loader configuration document
//! and injects kernel patch records, with the decisions of each run proved.

pub mod value;
pub mod text;
pub mod document;
pub mod patches;
pub mod identity;
pub mod window;
pub mod session;
pub mod qcow2;
