//! Finds the file system entries whose name matches a regular expression.
//!
//! `cli` reads the command line into a search configuration; `find` decides,
//! for each thing a directory walk meets, what is printed. The walk and the
//! printing are left to the caller.

pub mod arg_laws;
pub mod cli;
pub mod find;
pub mod number;
pub mod pattern;
pub mod text;
