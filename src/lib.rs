pub mod badge;
pub mod decimal;
pub mod laws;
pub mod save;
pub mod svg;
pub mod structure;
