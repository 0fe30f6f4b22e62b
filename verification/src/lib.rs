//! The decisions behind two directory pickers of an editor.
//!
//! `git_directories` lists the repositories and projects below a set of scanned
//! directories, `subdirectories_picker` lists the immediate subdirectories of a set of
//! base directories. Both let the user narrow the list by a query and open the chosen
//! directory in the current window or in a new one.
//!
//! Everything here is a function from plain values to plain values. Walking the file
//! system, scoring candidates against the query and drawing the list are left to the
//! application, which hands the outcome back.

pub mod expansion;
pub mod git_directories;
pub mod matching;
pub mod order;
pub mod path;
pub mod scanner;
pub mod score;
pub mod subdirectories_picker;
pub mod text;
pub mod window;
