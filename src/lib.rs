pub mod date;
pub mod parser;
pub mod roller;
pub mod text;
