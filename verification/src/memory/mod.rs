//! Memory: skills loaded from files and the drawers of the memory palace.
pub mod skill_loader;
pub mod mempalace;
