//! Reconciles a GitHub organization's access-control state into per-repository
//! access-policy entries: pages are collected, installations are mapped to
//! repositories, candidates are filtered and ordered, and entries are built.

pub mod model;
pub mod permission;
pub mod paginate;
pub mod installs;
pub mod assemble;
pub mod protection;
pub mod order;
pub mod select;
pub mod distinct;
pub mod entry;
