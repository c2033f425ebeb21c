//! Resolution of a hierarchical multi-repository workspace: manifests, the
//! tree of declared projects, presence on disk and fetch plans.

pub mod json;
pub mod manifest;
pub mod plan;
pub mod plugin;
pub mod reconcile;
pub mod render;
pub mod snapshot;
pub mod text;
pub mod tree;

pub use plugin::ProjectPlugin;
pub use reconcile::find_missing_projects;
