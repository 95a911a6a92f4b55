use vstd::prelude::*;

pub mod archive;
pub mod cd;
pub mod config;
pub mod dates;
pub mod goto;
pub mod input;
pub mod markup;
pub mod paths;
pub mod preview;
pub mod state;
pub mod summary;
pub mod text;
