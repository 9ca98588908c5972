use vstd::prelude::*;

pub mod text;
pub mod types;
pub mod parser;
pub mod generator;
pub mod migration;
pub mod modifier;
pub mod ingest;
pub mod cli;
pub mod read_back;

verus! {

} // verus!
