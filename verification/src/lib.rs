pub mod parser;
pub mod program;
pub mod tank;
