pub mod epic;
pub mod gamejolt;
pub mod gog;
pub mod itchio;
pub mod nexus;
pub mod steam;
