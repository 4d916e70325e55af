//! A hierarchical-selection subsystem of a retained-mode UI: expandable tree
//! items, a root that owns a single selection over the whole hierarchy, and a
//! file browser that projects a directory tree onto them on demand.
pub mod handle;
pub mod message;
pub mod ui;
pub mod tree;
pub mod file_browser;
