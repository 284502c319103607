pub mod assets;
pub mod output;
pub mod selection;
