pub mod drill_holes;
pub mod drill_tables;
pub mod files;
pub mod tables;
pub mod terrain;
