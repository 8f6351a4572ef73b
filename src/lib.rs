//! A catalog crawler's core: selector extraction over fetched pages, track
//! normalization, and the sequential fetch/retry state machine that turns seed
//! URLs into flattened album records.
use vstd::prelude::*;

pub mod crawl;
pub mod extract;
pub mod text;

verus! {

/// One track of an album, named by the text content of its element.
#[derive(Debug)]
pub struct Track {
    pub name: String,
}

impl Track {
    pub fn new(name: String) -> (r: Track)
        ensures
            r.name@ == name@,
    {
        Track { name }
    }
}

/// An album found on a listing page, with the tracks of its own page.
#[derive(Debug)]
pub struct Album {
    pub name: String,
    pub url: String,
    pub tracks: Vec<Track>,
}

impl Album {
    pub fn new(name: String, url: String, tracks: Vec<Track>) -> (r: Album)
        ensures
            r.name@ == name@,
            r.url@ == url@,
            r.tracks@ == tracks@,
    {
        Album { name, url, tracks }
    }

    /// The names of the album's tracks, in order.
    pub open spec fn track_names(&self) -> Seq<Seq<char>> {
        self.tracks@.map_values(|t: Track| t.name@)
    }
}

} // verus!
