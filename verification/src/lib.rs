pub mod __private;
pub mod ast;
pub mod attr;
pub mod digits;
pub mod driver;
pub mod expand;
pub mod gen;
pub mod props;
pub mod toks;

pub use driver::{opaque, transform};
