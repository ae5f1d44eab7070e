//! What the operations of the library are for, stated of their calls: what every result
//! satisfies, and how inputs, results and later calls relate.

pub mod audit;
pub mod buffer;
pub mod json;
pub mod process;
pub mod session;
pub mod text;
pub mod tools;
pub mod values;
pub mod watch;
