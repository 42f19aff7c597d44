//! The provider interface and the image provider.
//!
//! A provider decodes one source medium and persists its thumbnail. The
//! image provider's pipeline alternates filesystem work with decisions; the
//! decisions live here, verified, as a step machine: each state names the
//! one filesystem action the caller must perform, and `advance_item`
//! consumes the action's outcome.

use vstd::prelude::*;
use vstd::string::StringExecFns;

use crate::dims::{fit_height, fit_width, lemma_fit_dims_bounds, thumb_dims};
use crate::media::ThumbJob;
use crate::meta::{fs_eq, FsMetaView, ThumbFsMeta, ThumbFullMeta};
use crate::names::{
    destination_filename, destination_filename_of, temp_filename, temp_filename_of,
};
use crate::pngcodec::{
    get_thumb_original_metadata, thumb_info_of, thumb_png_bytes_of, thumb_stream_wf,
    write_thumb_with_original_metadata,
};
use crate::text::{lemma_string_vec_deep_view, str_eq};

verus! {

/// A decoder plugin: stateless, registered once, shared across requests.
/// `process` must be idempotent on an unchanged source.
pub trait Provider {
    /// A descriptive name, for logging.
    fn name(&self) -> &'static str;

    /// The MIME types this provider claims.
    fn supported_mime_types(&self) -> Vec<String>;

    /// Processes one item synchronously; `opaque` distinguishes temporary
    /// files of concurrent items within a chunk.
    fn process(&self, opaque: usize, cache_dir: &str, job: ThumbJob) -> Result<(), String>;
}

/// The scheme of a parseable absolute URI.
pub uninterp spec fn uri_scheme_of(uri: Seq<char>) -> Option<Seq<char>>;

/// Relies on `url::Url::parse` and `Url::scheme`: parsing is a function of
/// the text alone, and the scheme of a parsed URI is defined.
#[verifier::external_body]
fn uri_scheme(uri: &str) -> (r: Result<String, String>)
    ensures
        r matches Ok(s) ==> uri_scheme_of(uri@) == Some(s@),
        r is Err ==> uri_scheme_of(uri@) is None,
{
    match url::Url::parse(uri) {
        Ok(u) => Ok(u.scheme().to_owned()),
        Err(e) => Err(e.to_string()),
    }
}

/// The local path a URI designates, when it parses, carries no remote host,
/// and decodes to UTF-8.
pub uninterp spec fn uri_file_path_of(uri: Seq<char>) -> Option<Seq<char>>;

/// Relies on `url::Url::parse` and `Url::to_file_path`: both are functions
/// of the text alone.
#[verifier::external_body]
fn uri_to_file_path(uri: &str) -> (r: Result<String, String>)
    ensures
        r matches Ok(p) ==> uri_file_path_of(uri@) == Some(p@),
        r is Err ==> uri_file_path_of(uri@) is None,
{
    let u = match url::Url::parse(uri) {
        Ok(u) => u,
        Err(e) => return Err(e.to_string()),
    };
    let p = match u.to_file_path() {
        Ok(p) => p,
        Err(()) => return Err("not a file://".to_owned()),
    };
    match p.to_str() {
        Some(s) => Ok(s.to_owned()),
        None => Err("not a file://".to_owned()),
    }
}

/// The pixel dimensions the codec reads from an encoded image, when it can
/// decode it.
pub uninterp spec fn decoded_dims_of(bytes: Seq<u8>) -> Option<(u32, u32)>;

/// Relies on `image::load_from_memory` with `DynamicImage::width` and
/// `height`: decoding is a function of the bytes alone.
#[verifier::external_body]
fn decode_image_dims(bytes: &Vec<u8>) -> (r: Result<(u32, u32), String>)
    ensures
        r matches Ok(t) ==> decoded_dims_of(bytes@) == Some(t),
        r is Err ==> decoded_dims_of(bytes@) is None,
{
    match image::load_from_memory(bytes.as_slice()) {
        Ok(im) => Ok((im.width(), im.height())),
        Err(e) => Err(e.to_string()),
    }
}

/// The RGB8 buffer of a decoded image scaled to exactly the given
/// dimensions.
pub uninterp spec fn resized_rgb8_of(bytes: Seq<u8>, tw: u32, th: u32) -> Seq<u8>;

/// Relies on `image::load_from_memory`, `DynamicImage::thumbnail_exact` and
/// `to_rgb8`: the resized buffer is a function of the bytes and the target
/// dimensions alone, holds three bytes per pixel, and resizing cannot fail
/// once decoding succeeded. `ImageBuffer::new` panics when the subpixel
/// count overflows `usize`; the resize buffer is allocated in the source's
/// own pixel format, so the bound below covers the widest one (four
/// channels of four-byte subpixels) rather than the three output bytes.
#[verifier::external_body]
fn decode_and_resize_rgb8(bytes: &Vec<u8>, tw: u32, th: u32) -> (r: Result<Vec<u8>, String>)
    requires
        1 <= tw,
        1 <= th,
        16 * (tw as int) * (th as int) <= usize::MAX as int,
    ensures
        r matches Ok(p) ==> p@ == resized_rgb8_of(bytes@, tw, th)
            && p@.len() == 3 * (tw as int) * (th as int),
        r is Err ==> decoded_dims_of(bytes@) is None,
{
    match image::load_from_memory(bytes.as_slice()) {
        Ok(im) => Ok(im.thumbnail_exact(tw, th).to_rgb8().into_raw()),
        Err(e) => Err(e.to_string()),
    }
}

/// The MIME constants of the codec's formats, in `ImageFormat::all`'s
/// order.
pub open spec fn image_codec_mime_list() -> Seq<Seq<char>> {
    seq![
        "image/gif"@,
        "image/x-icon"@,
        "image/jpeg"@,
        "image/png"@,
        "image/bmp"@,
        "image/tiff"@,
        "image/x-targa"@,
        "image/x-portable-anymap"@,
        "application/octet-stream"@,
        "image/avif"@,
        "image/webp"@,
        "image/x-exr"@,
        "image/x-qoi"@,
        "image/vnd-ms.dds"@,
        "image/vnd.radiance"@,
        "image/vnd.zbrush.pcx"@,
    ]
}

/// Relies on `image::ImageFormat::all` and `to_mime_type`: the format list
/// and its MIME constants are fixed at build time, so the result is the
/// same on every call, and is exactly `image_codec_mime_list`.
#[verifier::external_body]
fn image_format_mime_types() -> (r: Vec<String>)
    ensures
        r.deep_view() == image_codec_mime_list(),
{
    image::ImageFormat::all().map(|f| f.to_mime_type().to_owned()).collect()
}

/// Whether a byte stream holds readable provenance matching a record:
/// unreadable or mismatched bytes are stale.
pub open spec fn cache_fresh_spec(bytes: Seq<u8>, cur: FsMetaView) -> bool {
    match thumb_info_of(bytes) {
        Some(t) => fs_eq(t.2, cur),
        None => false,
    }
}

/// Whether cached destination bytes carry provenance matching the current
/// source, so that decoding can be skipped.
pub fn cache_is_fresh(bytes: &Vec<u8>, current: &ThumbFsMeta) -> (r: bool)
    ensures
        r == cache_fresh_spec(bytes@, current@),
        (exists|fs: FsMetaView, tw: u32, th: u32, d: Seq<u8>|
            thumb_stream_wf(fs, tw, th, d)
                && bytes@ == #[trigger] thumb_png_bytes_of(fs, tw, th, d) && fs_eq(fs, current@))
            ==> r,
        (exists|fs: FsMetaView, tw: u32, th: u32, d: Seq<u8>|
            thumb_stream_wf(fs, tw, th, d)
                && bytes@ == #[trigger] thumb_png_bytes_of(fs, tw, th, d) && !fs_eq(fs, current@))
            ==> !r,
{
    match get_thumb_original_metadata(bytes) {
        Ok(m) => {
            let fresh = m.same_source(current);
            proof {
                if exists|fs: FsMetaView, tw: u32, th: u32, d: Seq<u8>|
                    thumb_stream_wf(fs, tw, th, d)
                        && bytes@ == #[trigger] thumb_png_bytes_of(fs, tw, th, d)
                        && fs_eq(fs, current@) {
                    let (fs, tw, th, d) = choose|fs: FsMetaView, tw: u32, th: u32, d: Seq<u8>|
                        thumb_stream_wf(fs, tw, th, d)
                            && bytes@ == #[trigger] thumb_png_bytes_of(fs, tw, th, d)
                            && fs_eq(fs, current@);
                    assert(m@ == fs);
                }
                if exists|fs: FsMetaView, tw: u32, th: u32, d: Seq<u8>|
                    thumb_stream_wf(fs, tw, th, d)
                        && bytes@ == #[trigger] thumb_png_bytes_of(fs, tw, th, d)
                        && !fs_eq(fs, current@) {
                    let (fs, tw, th, d) = choose|fs: FsMetaView, tw: u32, th: u32, d: Seq<u8>|
                        thumb_stream_wf(fs, tw, th, d)
                            && bytes@ == #[trigger] thumb_png_bytes_of(fs, tw, th, d)
                            && !fs_eq(fs, current@);
                    assert(m@ == fs);
                }
            }
            fresh
        },
        Err(_) => {
            proof {
                if exists|fs: FsMetaView, tw: u32, th: u32, d: Seq<u8>|
                    thumb_stream_wf(fs, tw, th, d)
                        && bytes@ == #[trigger] thumb_png_bytes_of(fs, tw, th, d)
                        && fs_eq(fs, current@) {
                    let (fs, tw, th, d) = choose|fs: FsMetaView, tw: u32, th: u32, d: Seq<u8>|
                        thumb_stream_wf(fs, tw, th, d)
                            && bytes@ == #[trigger] thumb_png_bytes_of(fs, tw, th, d)
                            && fs_eq(fs, current@);
                    assert(false);
                }
            }
            false
        },
    }
}

/// The paths an item works with, fixed when the item starts.
pub struct ItemPaths {
    pub uri: String,
    pub source_path: String,
    pub dest_path: String,
    pub temp_path: String,
    pub dimension: u32,
}

pub struct ItemPathsView {
    pub uri: Seq<char>,
    pub source_path: Seq<char>,
    pub dest_path: Seq<char>,
    pub temp_path: Seq<char>,
    pub dimension: u32,
}

impl View for ItemPaths {
    type V = ItemPathsView;

    open spec fn view(&self) -> ItemPathsView {
        ItemPathsView {
            uri: self.uri@,
            source_path: self.source_path@,
            dest_path: self.dest_path@,
            temp_path: self.temp_path@,
            dimension: self.dimension,
        }
    }
}

/// The state of one item's pipeline. Each non-final state names the one
/// filesystem action the caller performs next:
/// stat the source, read the destination file if it exists, read the source
/// file, or write the temporary file and rename it over the destination.
pub enum ItemState {
    AwaitStat { paths: ItemPaths },
    AwaitCache { meta: ThumbFsMeta, paths: ItemPaths },
    AwaitSource { meta: ThumbFsMeta, paths: ItemPaths },
    AwaitStore { temp_path: String, dest_path: String, png: Vec<u8> },
    Finished { result: Result<(), String> },
}

/// The outcome of the action a state asked for: mtime in microseconds and
/// size from the stat, the destination's bytes if readable, the source's
/// bytes, or the store's outcome.
pub enum ItemEvent {
    StatDone(Result<(u64, u64), String>),
    CacheBytes(Option<Vec<u8>>),
    SourceBytes(Result<Vec<u8>, String>),
    StoreDone(Result<(), String>),
}

/// Whether an event answers what the state asked for.
pub open spec fn event_fits(state: ItemState, ev: ItemEvent) -> bool {
    ||| (state is AwaitStat && ev is StatDone)
    ||| (state is AwaitCache && ev is CacheBytes)
    ||| (state is AwaitSource && ev is SourceBytes)
    ||| (state is AwaitStore && ev is StoreDone)
}

/// The provider backed by the image codec crate.
pub struct ImageProvider;

impl ImageProvider {
    pub fn new() -> (r: Self) {
        ImageProvider
    }

    /// A descriptive name, for logging.
    pub fn name(&self) -> &'static str {
        "Rust image crate"
    }

    /// The fixed claim list: the codec's MIME types in their declared
    /// order, then the Microsoft icon alias. Identical on every call.
    pub fn supported_mime_types(&self) -> (r: Vec<String>)
        ensures
            r.deep_view() == image_codec_mime_list().push("image/vnd.microsoft.icon"@),
            r.deep_view().contains("image/png"@),
            r.deep_view().contains("image/jpeg"@),
            r@[r@.len() - 1]@ == "image/vnd.microsoft.icon"@,
    {
        let mut v = image_format_mime_types();
        let ghost pre = v@;
        let ghost dv = v.deep_view();
        proof {
            lemma_string_vec_deep_view(v);
        }
        let icon = String::from_str("image/vnd.microsoft.icon");
        v.push(icon);
        proof {
            lemma_string_vec_deep_view(v);
            assert forall|j: int| 0 <= j < v.deep_view().len()
                implies v.deep_view()[j] == dv.push("image/vnd.microsoft.icon"@)[j] by {
                if j < pre.len() {
                    assert(v@[j] == pre[j]);
                }
            }
            assert(v.deep_view() =~= dv.push("image/vnd.microsoft.icon"@));
            assert(v.deep_view()[3] == "image/png"@);
            assert(v.deep_view()[2] == "image/jpeg"@);
        }
        v
    }

    /// Begins one item: resolves the URI to a local path and derives the
    /// destination and temporary filenames. A URI that does not parse, is
    /// not a `file` URI, or has no local path fails without touching the
    /// filesystem.
    pub fn start_item(&self, opaque: usize, cache_dir: &str, job: &ThumbJob) -> (r: ItemState)
        ensures
            r is AwaitStat || r is Finished,
            r matches ItemState::Finished { result } ==> result is Err,
            r matches ItemState::AwaitStat { paths } ==> {
                let dir = job.flavor.spec_cache_path(cache_dir@);
                &&& uri_scheme_of(job.media.uri@) == Some("file"@)
                &&& uri_file_path_of(job.media.uri@) == Some(paths@.source_path)
                &&& paths@.uri == job.media.uri@
                &&& paths@.dest_path == destination_filename_of(dir, job.media.uri@)
                &&& paths@.temp_path == temp_filename_of(dir, job.media.uri@, opaque as nat)
                &&& paths@.dimension == job.flavor.spec_dimension()
            },
            r is Finished ==> !(uri_scheme_of(job.media.uri@) == Some("file"@)
                && uri_file_path_of(job.media.uri@) is Some),
            uri_scheme_of(job.media.uri@) is Some
                && uri_scheme_of(job.media.uri@) != Some("file"@)
                ==> (r matches ItemState::Finished { result } && result matches Err(m)
                    && m@ == "not a file://"@),
    {
        let flavor_dir = job.flavor.cache_path(cache_dir);
        let scheme = match uri_scheme(job.media.uri.as_str()) {
            Ok(s) => s,
            Err(e) => {
                return ItemState::Finished { result: Err(e) };
            },
        };
        if !str_eq(scheme.as_str(), "file") {
            return ItemState::Finished { result: Err(String::from_str("not a file://")) };
        }
        let source_path = match uri_to_file_path(job.media.uri.as_str()) {
            Ok(p) => p,
            Err(e) => {
                return ItemState::Finished { result: Err(e) };
            },
        };
        let dest_path = destination_filename(flavor_dir.as_str(), job.media.uri.as_str());
        let temp_path = temp_filename(flavor_dir.as_str(), job.media.uri.as_str(), opaque);
        let dimension = job.flavor.dimension();
        ItemState::AwaitStat {
            paths: ItemPaths {
                uri: job.media.uri.clone(),
                source_path,
                dest_path,
                temp_path,
                dimension,
            },
        }
    }

    /// Advances one item by the outcome of the requested action.
    ///
    /// A cached destination whose provenance matches the fresh stat finishes
    /// the item at once: no source read and no decode happen on a warm
    /// cache. An event that does not answer the state fails the item.
    pub fn advance_item(&self, state: ItemState, ev: ItemEvent) -> (r: ItemState)
        ensures
            !event_fits(state, ev) ==> (r matches ItemState::Finished { result } && result is Err),
            state is AwaitStat && ev is StatDone && ev->StatDone_0 is Ok
                ==> (r matches ItemState::AwaitCache { meta, paths: p2 }
                    && meta@ == (FsMetaView {
                        uri: state->AwaitStat_paths@.uri,
                        mtime_micros: (ev->StatDone_0)->Ok_0.0,
                        size: (ev->StatDone_0)->Ok_0.1,
                    })
                    && p2@ == state->AwaitStat_paths@),
            state is AwaitStat && ev is StatDone && ev->StatDone_0 is Err
                ==> (r matches ItemState::Finished { result } && result matches Err(m)
                    && m@ == (ev->StatDone_0)->Err_0@),
            state is AwaitCache && ev is CacheBytes
                ==> ((r matches ItemState::Finished { result } && result is Ok)
                    || (r matches ItemState::AwaitSource { meta: m2, paths: p2 }
                        && m2@ == state->AwaitCache_meta@
                        && p2@ == state->AwaitCache_paths@)),
            state is AwaitCache && ev is CacheBytes && ev->CacheBytes_0 is Some
                && (exists|fs: FsMetaView, tw: u32, th: u32, d: Seq<u8>|
                    thumb_stream_wf(fs, tw, th, d)
                        && (ev->CacheBytes_0)->0@ == #[trigger] thumb_png_bytes_of(fs, tw, th, d)
                        && fs_eq(fs, state->AwaitCache_meta@))
                ==> (r matches ItemState::Finished { result } && result is Ok),
            state is AwaitCache && ev is CacheBytes && ev->CacheBytes_0 is Some
                && (exists|fs: FsMetaView, tw: u32, th: u32, d: Seq<u8>|
                    thumb_stream_wf(fs, tw, th, d)
                        && (ev->CacheBytes_0)->0@ == #[trigger] thumb_png_bytes_of(fs, tw, th, d)
                        && !fs_eq(fs, state->AwaitCache_meta@))
                ==> r is AwaitSource,
            state is AwaitCache && ev is CacheBytes && ev->CacheBytes_0 is None
                ==> r is AwaitSource,
            state is AwaitCache && ev is CacheBytes && ev->CacheBytes_0 is Some
                ==> ((r matches ItemState::Finished { result } && result is Ok)
                    <==> cache_fresh_spec((ev->CacheBytes_0)->0@, state->AwaitCache_meta@)),
            state is AwaitSource && ev is SourceBytes && ev->SourceBytes_0 is Err
                ==> (r matches ItemState::Finished { result } && result matches Err(m)
                    && m@ == (ev->SourceBytes_0)->Err_0@),
            state is AwaitSource && ev is SourceBytes && ev->SourceBytes_0 is Ok
                ==> (r is AwaitStore
                    || (r matches ItemState::Finished { result } && result is Err)),
            state is AwaitSource && ev is SourceBytes && ev->SourceBytes_0 is Ok
                && decoded_dims_of((ev->SourceBytes_0)->Ok_0@) is None
                ==> (r matches ItemState::Finished { result } && result is Err),
            state is AwaitSource && ev is SourceBytes && ev->SourceBytes_0 is Ok
                && r is AwaitStore
                ==> ({
                    let src = (ev->SourceBytes_0)->Ok_0@;
                    let dim = state->AwaitSource_paths@.dimension as int;
                    let wh = decoded_dims_of(src)->0;
                    let fw = fit_width(wh.0 as int, wh.1 as int, dim) as u32;
                    let fh = fit_height(wh.0 as int, wh.1 as int, dim) as u32;
                    &&& decoded_dims_of(src) is Some
                    &&& r->AwaitStore_temp_path@ == state->AwaitSource_paths@.temp_path
                    &&& r->AwaitStore_dest_path@ == state->AwaitSource_paths@.dest_path
                    &&& r->AwaitStore_png@ == thumb_png_bytes_of(
                        state->AwaitSource_meta@,
                        fw,
                        fh,
                        resized_rgb8_of(src, fw, fh),
                    )
                }),
            state is AwaitStore && ev is StoreDone
                ==> (r matches ItemState::Finished { result }
                    && (result is Ok <==> ev->StoreDone_0 is Ok)
                    && (result matches Err(m)
                        ==> ev->StoreDone_0 matches Err(e) && m@ == e@)),
    {
        match (state, ev) {
            (ItemState::AwaitStat { paths }, ItemEvent::StatDone(res)) => match res {
                Ok(t) => {
                    let meta = ThumbFsMeta::new(paths.uri.clone(), t.0, t.1);
                    ItemState::AwaitCache { meta, paths }
                },
                Err(e) => ItemState::Finished { result: Err(e) },
            },
            (ItemState::AwaitCache { meta, paths }, ItemEvent::CacheBytes(ob)) => match ob {
                Some(bytes) => {
                    if cache_is_fresh(&bytes, &meta) {
                        ItemState::Finished { result: Ok(()) }
                    } else {
                        ItemState::AwaitSource { meta, paths }
                    }
                },
                None => ItemState::AwaitSource { meta, paths },
            },
            (ItemState::AwaitSource { meta, paths }, ItemEvent::SourceBytes(res)) => match res {
                Ok(bytes) => self.render_item(meta, paths, bytes),
                Err(e) => ItemState::Finished { result: Err(e) },
            },
            (ItemState::AwaitStore { temp_path: _, dest_path: _, png: _ },
                ItemEvent::StoreDone(res)) => {
                ItemState::Finished { result: res }
            },
            (_, _) => ItemState::Finished {
                result: Err(String::from_str("event does not answer the pending action")),
            },
        }
    }

    /// Decodes the source, fits it into the flavor's box, and encodes the
    /// thumbnail PNG with provenance.
    fn render_item(&self, meta: ThumbFsMeta, paths: ItemPaths, bytes: Vec<u8>) -> (r: ItemState)
        ensures
            r is AwaitStore || (r matches ItemState::Finished { result } && result is Err),
            decoded_dims_of(bytes@) is None
                ==> (r matches ItemState::Finished { result } && result is Err),
            r is AwaitStore
                ==> ({
                    let wh = decoded_dims_of(bytes@)->0;
                    let fw = fit_width(wh.0 as int, wh.1 as int, paths@.dimension as int) as u32;
                    let fh = fit_height(wh.0 as int, wh.1 as int, paths@.dimension as int) as u32;
                    &&& decoded_dims_of(bytes@) is Some
                    &&& r->AwaitStore_temp_path@ == paths@.temp_path
                    &&& r->AwaitStore_dest_path@ == paths@.dest_path
                    &&& r->AwaitStore_png@ == thumb_png_bytes_of(
                        meta@, fw, fh, resized_rgb8_of(bytes@, fw, fh))
                }),
    {
        let dims = match decode_image_dims(&bytes) {
            Ok(t) => t,
            Err(e) => {
                return ItemState::Finished { result: Err(e) };
            },
        };
        let (w, h) = dims;
        if w == 0 || h == 0 || paths.dimension == 0 {
            return ItemState::Finished {
                result: Err(String::from_str("image or bounding box is empty")),
            };
        }
        let (tw, th) = thumb_dims(w, h, paths.dimension);
        proof {
            lemma_fit_dims_bounds(w as int, h as int, paths.dimension as int);
        }
        proof {
            assert((tw as int) * (th as int) <= 0xffff_ffff * 0xffff_ffff) by (nonlinear_arith)
                requires 0 <= tw as int <= 0xffff_ffff, 0 <= th as int <= 0xffff_ffff;
        }
        let area: u64 = (tw as u64) * (th as u64);
        if area > (usize::MAX / 16) as u64 {
            return ItemState::Finished {
                result: Err(String::from_str("thumbnail too large")),
            };
        }
        proof {
            assert(16 * ((usize::MAX as int) / 16) <= usize::MAX as int) by (nonlinear_arith);
            assert(16 * (tw as int) * (th as int) == 16 * ((tw as int) * (th as int)))
                by (nonlinear_arith);
        }
        let pixels = match decode_and_resize_rgb8(&bytes, tw, th) {
            Ok(p) => p,
            Err(e) => {
                return ItemState::Finished { result: Err(e) };
            },
        };
        let full = ThumbFullMeta::from(meta, w, h);
        match write_thumb_with_original_metadata(&full, tw, th, &pixels) {
            Ok(png) => ItemState::AwaitStore {
                temp_path: paths.temp_path,
                dest_path: paths.dest_path,
                png,
            },
            Err(e) => ItemState::Finished { result: Err(e) },
        }
    }
}

} // verus!
