pub mod common;
pub mod ipv4out;
pub mod transportv4out;
