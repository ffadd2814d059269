//! The core of a small interactive command shell: parsing of a command line
//! into pipeline stages, the decisions of the pipeline executor, and the
//! completion hints offered while a line is typed.

pub mod cmd;
pub mod pipeline;
pub mod prompt;
pub mod readln;
pub mod text;

