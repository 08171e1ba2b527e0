//! A concurrent, resumable downloader's engine: it plans the byte ranges that remain
//! to be fetched, decides between ranged and single-stream transfer, places each
//! received segment in the output file, and renders throughput.
use vstd::prelude::*;

pub mod content_length;
pub mod decimal;
pub mod engine;
pub mod plan;
pub mod throughput;

verus! {

/// What a user asks for: the resource to fetch and the file to write it to.
pub struct Args {
    pub url: String,
    pub target: String,
}

impl Args {
    pub fn new(url: String, target: String) -> (r: Self)
        ensures
            r.url@ == url@,
            r.target@ == target@,
    {
        Args { url, target }
    }
}

} // verus!
