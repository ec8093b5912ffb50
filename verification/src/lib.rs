use vstd::prelude::*;

pub mod text;
pub mod numbers;
pub mod progress;
pub mod ytdlp_args;
pub mod download;
pub mod registry;
pub mod host;
pub mod staging;
pub mod metadata;

verus! {
} // verus!
