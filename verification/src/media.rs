//! The unit of work: a media reference, a batched client request, and the
//! single-item job after fan-out.

use vstd::prelude::*;

use crate::flavor::ThumbFlavor;

verus! {

/// The mathematical view of a media reference.
pub struct MediaView {
    pub uri: Seq<char>,
    pub mime_type: Seq<char>,
}

/// One source medium: an absolute URI and the MIME type that selects its
/// decoder. Never mutated after construction.
#[derive(Debug)]
pub struct MediaRef {
    pub uri: String,
    pub mime_type: String,
}

impl View for MediaRef {
    type V = MediaView;

    open spec fn view(&self) -> MediaView {
        MediaView { uri: self.uri@, mime_type: self.mime_type@ }
    }
}

impl Clone for MediaRef {
    fn clone(&self) -> (r: Self)
        ensures
            r@ == self@,
    {
        MediaRef { uri: self.uri.clone(), mime_type: self.mime_type.clone() }
    }
}

/// One client request: a handle, a flavor, and the media to thumbnail.
#[derive(Debug)]
pub struct ThumbJobBatch {
    pub handle: u32,
    pub flavor: ThumbFlavor,
    pub medias: Vec<MediaRef>,
}

/// A single-item work unit after fan-out.
#[derive(Debug)]
pub struct ThumbJob {
    pub handle: u32,
    pub flavor: ThumbFlavor,
    pub media: MediaRef,
}

/// The media that were thumbnailed successfully.
pub type Successes = Vec<MediaRef>;

/// The media that failed, each with its error message.
pub type Failures = Vec<(MediaRef, String)>;

/// The URIs of a media sequence, in order.
pub open spec fn uris_of(s: Seq<MediaRef>) -> Seq<Seq<char>> {
    s.map_values(|m: MediaRef| m.uri@)
}

/// The views of a media sequence, in order: URI and MIME type together.
pub open spec fn views_of(s: Seq<MediaRef>) -> Seq<MediaView> {
    s.map_values(|m: MediaRef| m@)
}

/// The media views of a failure sequence, in order.
pub open spec fn failure_views_of(s: Seq<(MediaRef, String)>) -> Seq<MediaView> {
    s.map_values(|p: (MediaRef, String)| p.0@)
}

} // verus!
