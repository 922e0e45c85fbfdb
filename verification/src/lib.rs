//! Verified core of `wmish`, a command line tool for WMI: the inline-command
//! grammar, tab completion, the shell's command handling and query output,
//! and the rendering of WMI property values.

pub mod completion;
pub mod output;
pub mod parser;
pub mod shell;
pub mod text;
pub mod wmi;
