//! One resolved, playable unit of audio.

use vstd::prelude::*;

verus! {

/// The mathematical value of a [`Track`]: its title and canonical URL as
/// character sequences.
#[verifier::ext_equal]
pub ghost struct TrackModel {
    pub title: Seq<char>,
    pub url: Seq<char>,
}

/// A track as the source resolver returns it: a title and the canonical
/// URL of the playable source. Immutable once created; the audio engine
/// holds the real stream handle, the session only needs these identifying
/// values for control calls and replies.
pub struct Track {
    pub title: String,
    pub source_url: String,
}

impl View for Track {
    type V = TrackModel;

    closed spec fn view(&self) -> TrackModel {
        TrackModel { title: self.title@, url: self.source_url@ }
    }
}

impl Track {
    /// Builds a track from a resolved title and canonical URL.
    pub fn new(title: String, source_url: String) -> (t: Track)
        ensures
            t@ == (TrackModel { title: title@, url: source_url@ }),
    {
        Track { title, source_url }
    }

    /// The track's title, as shown in replies.
    pub fn title(&self) -> (r: &String)
        ensures
            r@ == self@.title,
    {
        &self.title
    }

    /// The canonical URL of the playable source.
    pub fn source_url(&self) -> (r: &String)
        ensures
            r@ == self@.url,
    {
        &self.source_url
    }
}

} // verus!
