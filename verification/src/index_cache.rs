//! The cached library index: the library order, saved between runs.

use vstd::prelude::*;

use crate::input::CacheChoice;
use crate::provider::ResumeCursor;

verus! {

/// The file that keeps the index, relative to the working directory.
pub fn index_path() -> (p: String)
    ensures
        p@ == "index.json"@,
{
    String::from_str("index.json")
}

/// A freshly built index is written to the cache only when it holds tracks.
pub fn cache_worth_writing(order: &[ResumeCursor]) -> (b: bool)
    ensures
        b == (order@.len() > 0),
{
    order.len() > 0
}

/// Where the library order comes from at startup.
#[derive(Debug, Clone, Copy, PartialEq, Eq, Structural)]
pub enum IndexSource {
    /// The cached index.
    Cached,
    /// Index the library again (and write the cache).
    Rebuild,
    /// The user quit at the cache prompt.
    Stop,
}

/// The source of the library order, from the answer at the cache prompt
/// (`None` when there is no readable cache and so no prompt): the cache when
/// the user keeps it, nothing when the user quits, a new index otherwise.
pub fn index_source(choice: Option<CacheChoice>) -> (s: IndexSource)
    ensures
        s == match choice {
            None => IndexSource::Rebuild,
            Some(CacheChoice::UseCache) => IndexSource::Cached,
            Some(CacheChoice::Reindex) => IndexSource::Rebuild,
            Some(CacheChoice::Quit) => IndexSource::Stop,
        },
{
    match choice {
        None => IndexSource::Rebuild,
        Some(CacheChoice::UseCache) => IndexSource::Cached,
        Some(CacheChoice::Reindex) => IndexSource::Rebuild,
        Some(CacheChoice::Quit) => IndexSource::Stop,
    }
}

} // verus!
