pub mod text;
pub mod dict;
pub mod value;
pub mod heap;
pub mod parser;
pub mod extends;
pub mod structure;
pub mod literal;
pub mod runtime;
pub mod interp;
pub mod packages;
pub mod module_text;
pub mod cli;
pub mod docs;
pub mod sysinfo;
pub mod timing;
pub mod driver;
pub mod wrappers;
pub mod init;
