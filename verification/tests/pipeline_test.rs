//! Thumbnail dimensions, the PNG codec round trip, the item pipeline, the
//! registry's partial-failure discipline, and the broker.

use rthumb::broker::{batch_replies, HandleCounter, make_batch, Reply};
use rthumb::dims::thumb_dims;
use rthumb::flavor::ThumbFlavor;
use rthumb::media::{MediaRef, ThumbJob, ThumbJobBatch};
use rthumb::meta::{ThumbFsMeta, ThumbFullMeta};
use rthumb::provider::{cache_is_fresh, ImageProvider, ItemEvent, ItemState, Provider};
use rthumb::registry::ProviderRegistryBuilder;
use rthumb::{read_thumb_info, write_thumb_with_original_metadata};

#[test]
fn unit_source_is_not_upscaled() {
    assert_eq!(thumb_dims(1, 1, 128), (1, 1));
    assert_eq!(thumb_dims(1, 1, 1024), (1, 1));
}

#[test]
fn large_square_source_fills_the_box() {
    assert_eq!(thumb_dims(129, 129, 128), (128, 128));
    assert_eq!(thumb_dims(4096, 4096, 512), (512, 512));
}

#[test]
fn aspect_ratio_is_preserved() {
    assert_eq!(thumb_dims(512, 256, 128), (128, 64));
    assert_eq!(thumb_dims(256, 512, 128), (64, 128));
    assert_eq!(thumb_dims(100, 50, 128), (100, 50));
}

fn sample_meta() -> ThumbFullMeta {
    let fs = ThumbFsMeta::new("file:///pics/cat.png".to_string(), 1700000000123456, 2048);
    ThumbFullMeta::from(fs, 512, 256)
}

#[test]
fn thumb_png_round_trip() {
    let meta = sample_meta();
    // a 2x1 RGB8 thumbnail: red and green pixels
    let data: Vec<u8> = vec![255, 0, 0, 0, 255, 0];
    let bytes = write_thumb_with_original_metadata(&meta, 2, 1, &data).unwrap();
    let (w, h, fs) = read_thumb_info(&bytes).unwrap();
    assert_eq!(w, 2);
    assert_eq!(h, 1);
    assert!(fs.same_source(&meta.fs));
    assert_eq!(fs.uri, "file:///pics/cat.png");
    assert_eq!(fs.mtime_micros, 1700000000123456);
    assert_eq!(fs.size, 2048);
}

#[test]
fn cache_freshness_matches_provenance() {
    let meta = sample_meta();
    let data: Vec<u8> = vec![9, 9, 9];
    let bytes = write_thumb_with_original_metadata(&meta, 1, 1, &data).unwrap();
    assert!(cache_is_fresh(&bytes, &meta.fs));
    let changed = ThumbFsMeta::new("file:///pics/cat.png".to_string(), 1700000000123457, 2048);
    assert!(!cache_is_fresh(&bytes, &changed));
    let zero_size = ThumbFsMeta::new("file:///pics/cat.png".to_string(), 1700000000123456, 0);
    assert!(cache_is_fresh(&bytes, &zero_size));
    assert!(!cache_is_fresh(&vec![1, 2, 3], &meta.fs));
}

fn start(provider: &ImageProvider, uri: &str) -> ItemState {
    let job = ThumbJob {
        handle: 1,
        flavor: ThumbFlavor::Normal,
        media: MediaRef { uri: uri.to_string(), mime_type: "image/png".to_string() },
    };
    provider.start_item(0, "/cache", &job)
}

#[test]
fn item_rejects_non_file_uris() {
    let provider = ImageProvider::new();
    match start(&provider, "http://example.com/a.png") {
        ItemState::Finished { result } => assert!(result.is_err()),
        _ => panic!("expected failure for non-file URI"),
    }
    match start(&provider, "not a uri at all") {
        ItemState::Finished { result } => assert!(result.is_err()),
        _ => panic!("expected failure for unparseable URI"),
    }
}

#[test]
fn item_derives_paths_for_file_uris() {
    let provider = ImageProvider::new();
    match start(&provider, "file:///pics/cat.png") {
        ItemState::AwaitStat { paths } => {
            assert_eq!(paths.source_path, "/pics/cat.png");
            assert_eq!(paths.dimension, 128);
            assert!(paths.dest_path.starts_with("/cache/normal/"));
            assert!(paths.dest_path.ends_with(".png"));
            assert!(paths.temp_path.contains(".tmp0"));
        },
        _ => panic!("expected the stat step"),
    }
}

#[test]
fn warm_cache_finishes_without_decoding() {
    let provider = ImageProvider::new();
    let state = start(&provider, "file:///pics/cat.png");
    let state = provider.advance_item(state, ItemEvent::StatDone(Ok((1700000000123456, 2048))));
    assert!(matches!(state, ItemState::AwaitCache { .. }));
    // a destination already on disk, carrying matching provenance
    let cached = write_thumb_with_original_metadata(&sample_meta(), 2, 1,
        &vec![0, 0, 0, 0, 0, 0]).unwrap();
    let state = provider.advance_item(state, ItemEvent::CacheBytes(Some(cached)));
    match state {
        ItemState::Finished { result } => assert!(result.is_ok()),
        _ => panic!("a warm cache must finish the item without a source read"),
    }
}

#[test]
fn stale_cache_leads_to_re_render() {
    let provider = ImageProvider::new();
    let state = start(&provider, "file:///pics/cat.png");
    let state = provider.advance_item(state, ItemEvent::StatDone(Ok((42, 1))));
    let cached = write_thumb_with_original_metadata(&sample_meta(), 2, 1,
        &vec![0, 0, 0, 0, 0, 0]).unwrap();
    let state = provider.advance_item(state, ItemEvent::CacheBytes(Some(cached)));
    assert!(matches!(state, ItemState::AwaitSource { .. }));
}

#[test]
fn item_renders_and_stores() {
    let provider = ImageProvider::new();
    let state = start(&provider, "file:///pics/cat.png");
    let state = provider.advance_item(state, ItemEvent::StatDone(Ok((1700000000123456, 2048))));
    let state = provider.advance_item(state, ItemEvent::CacheBytes(None));
    assert!(matches!(state, ItemState::AwaitSource { .. }));
    // the source image: a 2x2 PNG produced by the codec itself
    let source = write_thumb_with_original_metadata(&sample_meta(), 2, 2,
        &vec![1, 2, 3, 4, 5, 6, 7, 8, 9, 10, 11, 12]).unwrap();
    let state = provider.advance_item(state, ItemEvent::SourceBytes(Ok(source)));
    match state {
        ItemState::AwaitStore { temp_path, dest_path, png } => {
            assert!(temp_path.contains(".tmp0"));
            assert!(dest_path.ends_with(".png"));
            // 2x2 fits in the 128 box: stored unscaled with fresh provenance
            let (w, h, fs) = read_thumb_info(&png).unwrap();
            assert_eq!(w, 2);
            assert_eq!(h, 2);
            assert_eq!(fs.uri, "file:///pics/cat.png");
            assert_eq!(fs.mtime_micros, 1700000000123456);
            assert_eq!(fs.size, 2048);
        },
        _ => panic!("expected the store step"),
    }
}

#[test]
fn large_source_is_downscaled_into_the_box() {
    let provider = ImageProvider::new();
    let state = start(&provider, "file:///pics/wide.png");
    let state = provider.advance_item(state, ItemEvent::StatDone(Ok((77, 5))));
    let state = provider.advance_item(state, ItemEvent::CacheBytes(None));
    // a 512x256 source PNG, produced by the codec itself
    let mut pixels: Vec<u8> = Vec::new();
    for i in 0..512 * 256 * 3 {
        pixels.push((i % 251) as u8);
    }
    let meta = ThumbFullMeta::from(
        ThumbFsMeta::new("file:///pics/wide.png".to_string(), 77, 5), 512, 256);
    let source = write_thumb_with_original_metadata(&meta, 512, 256, &pixels).unwrap();
    let state = provider.advance_item(state, ItemEvent::SourceBytes(Ok(source)));
    match state {
        ItemState::AwaitStore { png, .. } => {
            let (w, h, fs) = read_thumb_info(&png).unwrap();
            assert_eq!(w, 128);
            assert_eq!(h, 64);
            assert_eq!(fs.uri, "file:///pics/wide.png");
            assert_eq!(fs.mtime_micros, 77);
            assert_eq!(fs.size, 5);
        },
        _ => panic!("expected the store step"),
    }
}

#[test]
fn item_fails_on_undecodable_source() {
    let provider = ImageProvider::new();
    let state = start(&provider, "file:///pics/cat.png");
    let state = provider.advance_item(state, ItemEvent::StatDone(Ok((1, 1))));
    let state = provider.advance_item(state, ItemEvent::CacheBytes(None));
    let state = provider.advance_item(state, ItemEvent::SourceBytes(Ok(vec![0, 1, 2])));
    match state {
        ItemState::Finished { result } => assert!(result.is_err()),
        _ => panic!("expected a decode failure"),
    }
}

#[test]
fn stat_failure_fails_the_item() {
    let provider = ImageProvider::new();
    let state = start(&provider, "file:///pics/cat.png");
    let state = provider.advance_item(state,
        ItemEvent::StatDone(Err("no such file".to_string())));
    match state {
        ItemState::Finished { result } => assert_eq!(result.unwrap_err(), "no such file"),
        _ => panic!("expected a stat failure"),
    }
}

#[test]
fn store_failure_fails_the_item() {
    let provider = ImageProvider::new();
    let state = ItemState::AwaitStore {
        temp_path: "/cache/normal/x.tmp0".to_string(),
        dest_path: "/cache/normal/x.png".to_string(),
        png: vec![1, 2, 3],
    };
    let state = provider.advance_item(state,
        ItemEvent::StoreDone(Err("disk full".to_string())));
    match state {
        ItemState::Finished { result } => assert_eq!(result.unwrap_err(), "disk full"),
        _ => panic!("expected a store failure"),
    }
}

#[test]
fn non_file_scheme_fails_with_the_exact_message() {
    let provider = ImageProvider::new();
    let state = start(&provider, "http://example.com/cat.png");
    match state {
        ItemState::Finished { result } => assert_eq!(result.unwrap_err(), "not a file://"),
        _ => panic!("expected a scheme failure"),
    }
}

#[test]
fn mismatched_event_fails_the_item() {
    let provider = ImageProvider::new();
    let state = start(&provider, "file:///pics/cat.png");
    let state = provider.advance_item(state, ItemEvent::StoreDone(Ok(())));
    match state {
        ItemState::Finished { result } => assert!(result.is_err()),
        _ => panic!("expected a protocol failure"),
    }
}

/// A provider that succeeds or fails by the URI's spelling.
struct FakeProvider;

impl Provider for FakeProvider {
    fn name(&self) -> &'static str {
        "fake"
    }

    fn supported_mime_types(&self) -> Vec<String> {
        vec!["image/png".to_string(), "image/jpeg".to_string()]
    }

    fn process(&self, _opaque: usize, _cache_dir: &str, job: ThumbJob) -> Result<(), String> {
        if job.media.uri.contains("good") {
            Ok(())
        } else {
            Err("synthetic failure".to_string())
        }
    }
}

fn media(uri: &str, mime: &str) -> MediaRef {
    MediaRef { uri: uri.to_string(), mime_type: mime.to_string() }
}

fn run_batch(chunk_size: usize) -> (Vec<String>, Vec<String>) {
    let mut builder = ProviderRegistryBuilder::new("/cache");
    let claims = FakeProvider.supported_mime_types();
    builder.register(FakeProvider, claims);
    builder.with_chunk_size(chunk_size);
    let registry = builder.build();
    let batch = ThumbJobBatch {
        handle: 1,
        flavor: ThumbFlavor::Normal,
        medias: vec![
            media("file:///good1.png", "image/png"),
            media("file:///bad1.png", "image/png"),
            media("file:///good2.jpg", "image/jpeg"),
            media("file:///odd.webm", "video/webm"),
            media("file:///good3.png", "image/png"),
        ],
    };
    let (successes, failures) = registry.process_request(batch);
    let mut ok: Vec<String> = successes.into_iter().map(|m| m.uri).collect();
    let mut bad: Vec<String> = failures.into_iter().map(|p| p.0.uri).collect();
    ok.sort();
    bad.sort();
    (ok, bad)
}

#[test]
fn every_medium_lands_in_exactly_one_list() {
    let (ok, bad) = run_batch(2);
    assert_eq!(ok.len() + bad.len(), 5);
    assert_eq!(ok, vec!["file:///good1.png", "file:///good2.jpg", "file:///good3.png"]);
    assert_eq!(bad, vec!["file:///bad1.png", "file:///odd.webm"]);
}

#[test]
fn chunk_size_does_not_change_the_outcome() {
    let expected = run_batch(2);
    assert_eq!(run_batch(1), expected);
    assert_eq!(run_batch(5), expected);
    assert_eq!(run_batch(0), expected);
    assert_eq!(run_batch(1000), expected);
}

#[test]
fn unregistered_mime_is_reported_as_failure() {
    let mut builder = ProviderRegistryBuilder::new("/cache");
    let claims = FakeProvider.supported_mime_types();
    builder.register(FakeProvider, claims);
    let registry = builder.build();
    let batch = ThumbJobBatch {
        handle: 9,
        flavor: ThumbFlavor::Large,
        medias: vec![media("file:///movie.webm", "video/webm")],
    };
    let (successes, failures) = registry.process_request(batch);
    assert!(successes.is_empty());
    assert_eq!(failures.len(), 1);
    assert_eq!(failures[0].0.uri, "file:///movie.webm");
    assert_eq!(failures[0].1, "no provider for this MIME type");
}

#[test]
fn chunk_dispatch_matches_the_batch_result() {
    let mut builder = ProviderRegistryBuilder::new("/cache");
    let claims = FakeProvider.supported_mime_types();
    builder.register(FakeProvider, claims);
    builder.with_chunk_size(2);
    let registry = builder.build();
    let medias = vec![
        media("file:///good1.png", "image/png"),
        media("file:///bad1.png", "image/png"),
        media("file:///good2.jpg", "image/jpeg"),
        media("file:///odd.webm", "video/webm"),
        media("file:///good3.png", "image/png"),
    ];
    let chunks = registry.prepare_chunks(&medias);
    let total: usize = chunks.iter().map(|c| c.len()).sum();
    assert_eq!(total, 5);
    let mut ok: Vec<String> = Vec::new();
    let mut bad: Vec<String> = Vec::new();
    for chunk in chunks {
        let (s, f) = registry.process_chunk_collect(7, ThumbFlavor::Normal, chunk);
        ok.extend(s.into_iter().map(|m| m.uri));
        bad.extend(f.into_iter().map(|p| p.0.uri));
    }
    ok.sort();
    bad.sort();
    assert_eq!((ok, bad), run_batch(2));
}

#[test]
fn handles_strictly_increase() {
    let mut counter = HandleCounter::new();
    let h1 = counter.fresh_handle();
    let h2 = counter.fresh_handle();
    let h3 = counter.fresh_handle();
    assert_eq!(h1, 1);
    assert!(h1 < h2);
    assert!(h2 < h3);
}

#[test]
fn batches_zip_uris_with_mime_types() {
    let uris = vec!["file:///a".to_string(), "file:///b".to_string(), "file:///c".to_string()];
    let mimes = vec!["image/png".to_string(), "image/jpeg".to_string()];
    let batch = make_batch(7, ThumbFlavor::Large, &uris, &mimes);
    assert_eq!(batch.handle, 7);
    assert_eq!(batch.medias.len(), 2);
    assert_eq!(batch.medias[0].uri, "file:///a");
    assert_eq!(batch.medias[0].mime_type, "image/png");
    assert_eq!(batch.medias[1].uri, "file:///b");
    assert_eq!(batch.medias[1].mime_type, "image/jpeg");
}

#[test]
fn replies_follow_ready_errors_finished_order() {
    let successes = vec![media("file:///ok", "image/png")];
    let failures = vec![
        (media("file:///x", "image/png"), "boom".to_string()),
        (media("file:///y", "image/png"), "crash".to_string()),
    ];
    let replies = batch_replies(4, &successes, &failures);
    assert_eq!(replies.len(), 4);
    match &replies[0] {
        Reply::Ready { handle, uris } => {
            assert_eq!(*handle, 4);
            assert_eq!(uris, &vec!["file:///ok".to_string()]);
        },
        _ => panic!("the first reply must be Ready"),
    }
    match &replies[1] {
        Reply::Error { handle, uri, message } => {
            assert_eq!(*handle, 4);
            assert_eq!(uri, "file:///x");
            assert_eq!(message, "boom");
        },
        _ => panic!("failures follow the Ready reply"),
    }
    match &replies[2] {
        Reply::Error { uri, .. } => assert_eq!(uri, "file:///y"),
        _ => panic!("failures follow the Ready reply"),
    }
    match &replies[3] {
        Reply::Finished { handle } => assert_eq!(*handle, 4),
        _ => panic!("the last reply must be Finished"),
    }
}

#[test]
fn finished_is_emitted_even_when_everything_fails() {
    let successes: Vec<MediaRef> = Vec::new();
    let failures = vec![(media("file:///x", "image/png"), "boom".to_string())];
    let replies = batch_replies(2, &successes, &failures);
    assert_eq!(replies.len(), 3);
    match &replies[0] {
        Reply::Ready { uris, .. } => assert!(uris.is_empty()),
        _ => panic!("the first reply must be Ready"),
    }
    assert!(matches!(&replies[2], Reply::Finished { .. }));
}

#[test]
fn image_provider_claims_the_icon_alias() {
    let provider = ImageProvider::new();
    let mimes = provider.supported_mime_types();
    assert!(mimes.iter().any(|m| m == "image/png"));
    assert!(mimes.iter().any(|m| m == "image/jpeg"));
    assert_eq!(mimes.last().unwrap(), "image/vnd.microsoft.icon");
}

/// A provider with configurable name and claims, for registries that hold
/// several instances.
struct TaggedProvider {
    tag: &'static str,
    claims: Vec<String>,
}

impl Provider for TaggedProvider {
    fn name(&self) -> &'static str {
        self.tag
    }

    fn supported_mime_types(&self) -> Vec<String> {
        self.claims.clone()
    }

    fn process(&self, _opaque: usize, _cache_dir: &str, _job: ThumbJob) -> Result<(), String> {
        if self.tag == "fake" {
            Ok(())
        } else {
            Err("wrong provider dispatched".to_string())
        }
    }
}

#[test]
fn first_registration_wins_and_claims_aggregate() {
    let mut builder = ProviderRegistryBuilder::new("/cache");
    let first = TaggedProvider {
        tag: "fake",
        claims: vec!["image/png".to_string(), "image/jpeg".to_string()],
    };
    let claims = first.supported_mime_types();
    builder.register(first, claims);
    let second = TaggedProvider {
        tag: "other",
        claims: vec!["image/png".to_string(), "image/webp".to_string()],
    };
    let claims = second.supported_mime_types();
    builder.register(second, claims);
    let registry = builder.build();
    let supported = registry.supported_mime_types();
    assert_eq!(
        supported,
        vec!["image/png".to_string(), "image/jpeg".to_string(), "image/webp".to_string()]
    );
    assert!(registry.get_provider("image/png").is_some());
    assert_eq!(registry.get_provider("image/png").unwrap().name(), "fake");
    assert_eq!(registry.get_provider("image/webp").unwrap().name(), "other");
    assert!(registry.get_provider("video/webm").is_none());
    // the overlapping claim dispatches to the first registrant
    let batch = ThumbJobBatch {
        handle: 3,
        flavor: ThumbFlavor::Normal,
        medias: vec![media("file:///good.png", "image/png")],
    };
    let (successes, failures) = registry.process_request(batch);
    assert_eq!(successes.len(), 1);
    assert!(failures.is_empty());
}

#[test]
fn thumb_encoding_rejects_a_wrong_buffer_length() {
    let meta = sample_meta();
    // 2x1 RGB8 needs six bytes; hand it five
    let short: Vec<u8> = vec![255, 0, 0, 0, 255];
    assert!(write_thumb_with_original_metadata(&meta, 2, 1, &short).is_err());
    // zero dimensions are rejected even with an empty buffer
    let empty: Vec<u8> = Vec::new();
    assert!(write_thumb_with_original_metadata(&meta, 0, 1, &empty).is_err());
}

#[test]
fn stat_micros_combines_seconds_and_nanoseconds() {
    assert_eq!(rthumb::stat_micros(1_700_000_000, 123_456_789), 1_700_000_000_123_456);
    assert_eq!(rthumb::stat_micros(0, 999), 0);
    assert_eq!(rthumb::stat_micros(u64::MAX, 0), u64::MAX);
}
