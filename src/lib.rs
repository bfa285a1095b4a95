pub mod chunk;
pub mod compiler;
pub mod debug;
pub mod grammar;
pub mod scanner;
pub mod vm;
