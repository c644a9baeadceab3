//! Verified core of a small terminal system monitor: text layout of process
//! tables and system reports, the sampling history of the monitor, the
//! process tree, and the key-driven state machine of the interactive screen.

pub mod text;
pub mod clock;
pub mod process;
pub mod order;
pub mod system;
pub mod table;
pub mod report;
pub mod tree;
pub mod console;
pub mod prompt;
