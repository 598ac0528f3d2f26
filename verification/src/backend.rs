pub mod common;
pub mod frame;
