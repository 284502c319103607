pub mod dependencies;
pub mod dependency_laws;
pub mod dfinity;
