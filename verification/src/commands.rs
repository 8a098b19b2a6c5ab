//! What the command-line commands decide, apart from the files and
//! processes they touch.

pub mod run;
pub mod manage;
