pub mod color;
pub mod date;
pub mod error;
pub mod mode;
pub mod names;
pub mod path;
pub mod text;
