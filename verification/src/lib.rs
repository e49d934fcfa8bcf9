use vstd::prelude::*;

pub mod types;
pub mod text;
pub mod chunker;
pub mod storage;
pub mod syntax;
pub mod ts;
pub mod parser;
pub mod config;
pub mod paths;
pub mod indexer;
pub mod search;
pub mod tools;
pub mod embedding;

verus! {
} // verus!
