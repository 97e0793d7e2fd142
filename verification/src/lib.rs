pub mod error;
pub mod location;
pub mod parser;
pub mod script;
pub mod text;
pub mod vm;
