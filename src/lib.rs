pub mod address;
pub mod batch;
pub mod format;
pub mod scan;
pub mod text;
pub mod laws;
