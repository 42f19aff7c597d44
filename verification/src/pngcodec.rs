//! Encoding and decoding of thumbnail PNGs in memory: RGB8 pixel data plus
//! the three provenance text chunks. File I/O stays with the caller; this
//! module works on byte vectors.

use vstd::prelude::*;
use vstd::string::StringExecFns;
use vstd::string::StrSliceExecFns;

use crate::meta::{FsMetaView, ThumbFsMeta, ThumbFullMeta};
use crate::provenance::{
    format_mtime, lemma_provenance_round_trip, mtime_text_of, parse_provenance,
    parse_provenance_spec, provenance_chunks_of,
};
use crate::text::{
    all_dec_digits, dec_of, is_dec_digit, lemma_dec_of_digits, lemma_dec_of_u64_len,
    lemma_pad_dec_digits, pad_dec, u64_to_string,
};

verus! {

/// The PNG byte stream produced for an RGB8 image of the given dimensions
/// with three uncompressed Latin-1 text chunks, in order, followed by the
/// pixel data.
pub uninterp spec fn png_bytes_of(
    width: u32,
    height: u32,
    k1: Seq<char>,
    v1: Seq<char>,
    k2: Seq<char>,
    v2: Seq<char>,
    k3: Seq<char>,
    v3: Seq<char>,
    data: Seq<u8>,
) -> Seq<u8>;

/// Every character maps to one Latin-1 byte.
pub open spec fn latin1_text(s: Seq<char>) -> bool {
    forall|i: int| 0 <= i < s.len() ==> (#[trigger] s[i]) as u32 <= 255
}

/// The encoder accepts the chunk: a Latin-1 keyword of one to 79
/// characters and a Latin-1 value.
pub open spec fn png_chunk_accepted(k: Seq<char>, v: Seq<char>) -> bool {
    &&& 1 <= k.len() <= 79
    &&& latin1_text(k)
    &&& latin1_text(v)
}

/// An accepted chunk whose body also fits a PNG chunk length field, so the
/// emitted stream carries it intact.
pub open spec fn png_chunk_encodable(k: Seq<char>, v: Seq<char>) -> bool {
    &&& png_chunk_accepted(k, v)
    &&& k.len() + 1 + v.len() <= 0x7fff_ffff
}

/// The keyword holds no NUL, so the decoder's split at the first NUL
/// recovers it exactly.
pub open spec fn png_keyword_clean(k: Seq<char>) -> bool {
    forall|i: int| 0 <= i < k.len() ==> (#[trigger] k[i]) != '\0'
}

/// The streams whose decoding is pinned down: dimensions and pixel buffer
/// the encoder accepts, and chunks that both encode and decode exactly.
pub open spec fn png_stream_wf(
    width: u32,
    height: u32,
    k1: Seq<char>,
    v1: Seq<char>,
    k2: Seq<char>,
    v2: Seq<char>,
    k3: Seq<char>,
    v3: Seq<char>,
    data: Seq<u8>,
) -> bool {
    &&& 1 <= width
    &&& 1 <= height
    &&& data.len() == 3 * (width as int) * (height as int)
    &&& png_chunk_encodable(k1, v1) && png_keyword_clean(k1)
    &&& png_chunk_encodable(k2, v2) && png_keyword_clean(k2)
    &&& png_chunk_encodable(k3, v3) && png_keyword_clean(k3)
}

/// Relies on `png::Encoder` with `ColorType::Rgb` and `BitDepth::Eight`
/// writing to a byte vector: the output is a function of the dimensions,
/// the three text chunks and the pixel data alone. It succeeds exactly
/// when `write_header` accepts the dimensions (both nonzero), each
/// `TEXtChunk::encode` accepts its chunk (Latin-1 keyword of one to 79
/// bytes, Latin-1 text), and `write_image_data` is handed exactly three
/// bytes per pixel. The chunk bodies must fit a PNG length field: beyond
/// it `TEXtChunk::encode` does not fail but truncates the length word, so
/// such inputs are kept out by `requires`.
#[verifier::external_body]
fn png_encode_rgb8(
    width: u32,
    height: u32,
    k1: &str,
    v1: &str,
    k2: &str,
    v2: &str,
    k3: &str,
    v3: &str,
    data: &Vec<u8>,
) -> (r: Result<Vec<u8>, String>)
    requires
        3 * (width as int) * (height as int) <= usize::MAX as int,
        k1@.len() + 1 + v1@.len() <= 0x7fff_ffff,
        k2@.len() + 1 + v2@.len() <= 0x7fff_ffff,
        k3@.len() + 1 + v3@.len() <= 0x7fff_ffff,
    ensures
        r matches Ok(b) ==> b@ == png_bytes_of(width, height, k1@, v1@, k2@, v2@, k3@, v3@, data@),
        r is Ok <==> (1 <= width && 1 <= height
            && data@.len() == 3 * (width as int) * (height as int)
            && png_chunk_accepted(k1@, v1@)
            && png_chunk_accepted(k2@, v2@)
            && png_chunk_accepted(k3@, v3@)),
{
    let mut buf: Vec<u8> = Vec::new();
    let mut enc = png::Encoder::new(&mut buf, width, height);
    enc.set_color(png::ColorType::Rgb);
    enc.set_depth(png::BitDepth::Eight);
    let res = (|| -> Result<(), png::EncodingError> {
        let mut w = enc.write_header()?;
        w.write_text_chunk(&png::text_metadata::TEXtChunk::new(k1, v1))?;
        w.write_text_chunk(&png::text_metadata::TEXtChunk::new(k2, v2))?;
        w.write_text_chunk(&png::text_metadata::TEXtChunk::new(k3, v3))?;
        w.write_image_data(data)?;
        w.finish()
    })();
    match res { Ok(()) => Ok(buf), Err(e) => Err(e.to_string()) }
}

/// What the decoder reads from a byte stream, when it accepts it: the
/// dimensions and the uncompressed Latin-1 text chunks, in order.
pub uninterp spec fn png_text_decode_of(bytes: Seq<u8>) -> Option<
    (u32, u32, Seq<(Seq<char>, Seq<char>)>),
>;

/// Relies on `png::Decoder::read_info` collecting the dimensions and the
/// uncompressed Latin-1 text chunks: decoding is a function of the bytes
/// alone, and on a well-formed stream the encoder produced it recovers
/// the dimensions and the chunks exactly (Latin-1 maps characters up to
/// 255 byte-for-byte in both directions, and a NUL-free keyword survives
/// the decoder's split at the first NUL). The body lifts the decoder's
/// default allocation limit, so no encoder-produced stream is rejected
/// for its size.
#[verifier::external_body]
fn png_decode_text(bytes: &Vec<u8>) -> (r: Result<(u32, u32, Vec<(String, String)>), String>)
    ensures
        r is Ok <==> png_text_decode_of(bytes@) is Some,
        r matches Ok(t) ==> png_text_decode_of(bytes@) == Some((t.0, t.1, t.2.deep_view())),
        r is Err ==> forall|w: u32, h: u32, k1: Seq<char>, v1: Seq<char>, k2: Seq<char>,
            v2: Seq<char>, k3: Seq<char>, v3: Seq<char>, d: Seq<u8>|
            png_stream_wf(w, h, k1, v1, k2, v2, k3, v3, d)
                ==> bytes@ != #[trigger] png_bytes_of(w, h, k1, v1, k2, v2, k3, v3, d),
        r matches Ok(t) ==> forall|w: u32, h: u32, k1: Seq<char>, v1: Seq<char>, k2: Seq<char>,
            v2: Seq<char>, k3: Seq<char>, v3: Seq<char>, d: Seq<u8>|
            png_stream_wf(w, h, k1, v1, k2, v2, k3, v3, d)
                && bytes@ == #[trigger] png_bytes_of(w, h, k1, v1, k2, v2, k3, v3, d)
                ==> t.0 == w && t.1 == h
                    && t.2.deep_view() == seq![(k1, v1), (k2, v2), (k3, v3)],
{
    let decoder = png::Decoder::new_with_limits(
        bytes.as_slice(),
        png::Limits { bytes: usize::MAX },
    );
    let reader = match decoder.read_info() {
        Ok(r) => r,
        Err(e) => return Err(e.to_string()),
    };
    let info = reader.info();
    let chunks = info
        .uncompressed_latin1_text
        .iter()
        .map(|c| (c.keyword.clone(), c.text.clone()))
        .collect();
    Ok((info.width, info.height, chunks))
}

/// The byte stream of a thumbnail PNG carrying a record's provenance.
pub open spec fn thumb_png_bytes_of(
    fs: FsMetaView,
    thumb_width: u32,
    thumb_height: u32,
    data: Seq<u8>,
) -> Seq<u8> {
    png_bytes_of(
        thumb_width,
        thumb_height,
        "Thumb::URI"@,
        fs.uri,
        "Thumb::MTime"@,
        mtime_text_of(fs.mtime_micros),
        "Thumb::Size"@,
        dec_of(fs.size as nat),
        data,
    )
}

/// The record's URI chunk is encodable: a Latin-1 URI short enough for a
/// PNG chunk together with its ten-character keyword.
pub open spec fn thumb_meta_encodable(fs: FsMetaView) -> bool {
    latin1_text(fs.uri) && fs.uri.len() + 11 <= 0x7fff_ffff
}

/// A thumbnail stream is well formed: the dimensions and buffer the
/// encoder accepts, and the three provenance chunks in exact round trip.
pub open spec fn thumb_stream_wf(
    fs: FsMetaView,
    thumb_width: u32,
    thumb_height: u32,
    data: Seq<u8>,
) -> bool {
    png_stream_wf(
        thumb_width,
        thumb_height,
        "Thumb::URI"@,
        fs.uri,
        "Thumb::MTime"@,
        mtime_text_of(fs.mtime_micros),
        "Thumb::Size"@,
        dec_of(fs.size as nat),
        data,
    )
}

/// A string of decimal digits is Latin-1.
proof fn lemma_digit_text_latin1(s: Seq<char>)
    requires
        all_dec_digits(s),
    ensures
        latin1_text(s),
{
    assert forall|i: int| 0 <= i < s.len() implies (#[trigger] s[i]) as u32 <= 255 by {
        assert(is_dec_digit(s[i]));
    }
}

/// Well-formedness of a thumbnail stream reduces to the URI chunk and the
/// dimensions: the fixed keywords and the numeric mtime and size texts
/// always qualify.
pub proof fn lemma_thumb_stream_wf(fs: FsMetaView, tw: u32, th: u32, data: Seq<u8>)
    ensures
        thumb_stream_wf(fs, tw, th, data) <==> (1 <= tw && 1 <= th
            && data.len() == 3 * (tw as int) * (th as int)
            && thumb_meta_encodable(fs)),
        mtime_text_of(fs.mtime_micros).len() <= 27,
        dec_of(fs.size as nat).len() <= 20,
{
    reveal_strlit("Thumb::URI");
    reveal_strlit("Thumb::MTime");
    reveal_strlit("Thumb::Size");
    let k1 = "Thumb::URI"@;
    let k2 = "Thumb::MTime"@;
    let k3 = "Thumb::Size"@;
    assert(k1 =~= seq!['T', 'h', 'u', 'm', 'b', ':', ':', 'U', 'R', 'I']);
    assert(k2 =~= seq!['T', 'h', 'u', 'm', 'b', ':', ':', 'M', 'T', 'i', 'm', 'e']);
    assert(k3 =~= seq!['T', 'h', 'u', 'm', 'b', ':', ':', 'S', 'i', 'z', 'e']);
    assert(latin1_text(k1) && png_keyword_clean(k1));
    assert(latin1_text(k2) && png_keyword_clean(k2));
    assert(latin1_text(k3) && png_keyword_clean(k3));
    let sec = (fs.mtime_micros / 1000000) as nat;
    let frac = (fs.mtime_micros % 1000000) as nat;
    let mt = mtime_text_of(fs.mtime_micros);
    lemma_dec_of_digits(sec);
    lemma_pad_dec_digits(frac, 6);
    lemma_dec_of_u64_len(fs.mtime_micros / 1000000);
    lemma_digit_text_latin1(dec_of(sec));
    lemma_digit_text_latin1(pad_dec(frac, 6));
    assert(latin1_text(mt)) by {
        assert forall|i: int| 0 <= i < mt.len() implies (#[trigger] mt[i]) as u32 <= 255 by {
            let d = dec_of(sec).len() as int;
            if i < d {
                assert(mt[i] == dec_of(sec)[i]);
            } else if i == d {
                assert(mt[i] == '.');
            } else {
                assert(mt[i] == pad_dec(frac, 6)[i - d - 1]);
            }
        }
    }
    assert(mt.len() <= 27);
    assert(png_chunk_encodable(k2, mt));
    let sz = dec_of(fs.size as nat);
    lemma_dec_of_digits(fs.size as nat);
    lemma_dec_of_u64_len(fs.size);
    lemma_digit_text_latin1(sz);
    assert(png_chunk_encodable(k3, sz));
}

/// Encodes a thumbnail PNG: RGB8 pixel data of the given dimensions with
/// the source's provenance embedded as text chunks. It succeeds exactly
/// when the dimensions are nonzero, the buffer holds three bytes per pixel
/// of a size the machine can address, and the URI chunk is encodable.
pub fn write_thumb_with_original_metadata(
    meta: &ThumbFullMeta,
    thumb_width: u32,
    thumb_height: u32,
    data: &Vec<u8>,
) -> (r: Result<Vec<u8>, String>)
    ensures
        r matches Ok(b) ==> b@ == thumb_png_bytes_of(meta.fs@, thumb_width, thumb_height, data@),
        r is Ok <==> (1 <= thumb_width && 1 <= thumb_height
            && data@.len() == 3 * (thumb_width as int) * (thumb_height as int)
            && 3 * (thumb_width as int) * (thumb_height as int) <= usize::MAX as int
            && thumb_meta_encodable(meta.fs@)),
        r is Ok ==> thumb_stream_wf(meta.fs@, thumb_width, thumb_height, data@),
{
    proof {
        assert((thumb_width as int) * (thumb_height as int) <= 0xffff_ffff * 0xffff_ffff)
            by (nonlinear_arith)
            requires
                0 <= thumb_width as int <= 0xffff_ffff,
                0 <= thumb_height as int <= 0xffff_ffff;
    }
    let area: u64 = (thumb_width as u64) * (thumb_height as u64);
    proof {
        assert(3 * (thumb_width as int) * (thumb_height as int) == 3 * (area as int))
            by (nonlinear_arith)
            requires area as int == (thumb_width as int) * (thumb_height as int);
    }
    if area > (usize::MAX / 3) as u64 {
        proof {
            assert(3 * ((usize::MAX as int) / 3) + 3 > usize::MAX as int);
            assert(3 * (area as int) > usize::MAX as int) by (nonlinear_arith)
                requires area as int > (usize::MAX as int) / 3,
                    3 * ((usize::MAX as int) / 3) + 3 > usize::MAX as int;
        }
        return Err(String::from_str("thumbnail too large"));
    }
    proof {
        assert(3 * (area as int) <= usize::MAX as int) by (nonlinear_arith)
            requires area as int <= (usize::MAX as int) / 3;
        lemma_thumb_stream_wf(meta.fs@, thumb_width, thumb_height, data@);
        reveal_strlit("Thumb::URI");
        reveal_strlit("Thumb::MTime");
        reveal_strlit("Thumb::Size");
        assert("Thumb::URI"@ =~= seq!['T', 'h', 'u', 'm', 'b', ':', ':', 'U', 'R', 'I']);
        assert("Thumb::MTime"@ =~= seq!['T', 'h', 'u', 'm', 'b', ':', ':', 'M', 'T', 'i', 'm',
            'e']);
        assert("Thumb::Size"@ =~= seq!['T', 'h', 'u', 'm', 'b', ':', ':', 'S', 'i', 'z', 'e']);
        assert(latin1_text("Thumb::URI"@));
    }
    if meta.fs.uri.as_str().unicode_len() > 0x7fff_ffff - 11 {
        return Err(String::from_str("uri too long for a text chunk"));
    }
    let mtime = format_mtime(meta.fs.mtime_micros);
    let size = u64_to_string(meta.fs.size);
    png_encode_rgb8(
        thumb_width,
        thumb_height,
        "Thumb::URI",
        meta.fs.uri.as_str(),
        "Thumb::MTime",
        mtime.as_str(),
        "Thumb::Size",
        size.as_str(),
        data,
    )
}

/// The thumbnail info carried by a byte stream: the decoder's dimensions
/// and the provenance parsed from its text chunks, when both succeed.
pub open spec fn thumb_info_of(bytes: Seq<u8>) -> Option<(u32, u32, FsMetaView)> {
    match png_text_decode_of(bytes) {
        None => None,
        Some(t) => match parse_provenance_spec(t.2) {
            None => None,
            Some(fs) => Some((t.0, t.1, fs)),
        },
    }
}

/// Decodes a thumbnail PNG: its pixel dimensions and the embedded
/// provenance, exactly `thumb_info_of` the bytes. Reading back a
/// well-formed stream that `write_thumb_with_original_metadata` produced
/// recovers the dimensions and the record exactly.
pub fn read_thumb_info(bytes: &Vec<u8>) -> (r: Result<(u32, u32, ThumbFsMeta), String>)
    ensures
        r is Ok <==> thumb_info_of(bytes@) is Some,
        r matches Ok(t) ==> thumb_info_of(bytes@) == Some((t.0, t.1, t.2@)),
        forall|fs: FsMetaView, tw: u32, th: u32, d: Seq<u8>|
            thumb_stream_wf(fs, tw, th, d)
                && bytes@ == #[trigger] thumb_png_bytes_of(fs, tw, th, d)
                ==> (r matches Ok(t) && t.0 == tw && t.1 == th && t.2@ == fs),
{
    let decoded = match png_decode_text(bytes) {
        Ok(t) => t,
        Err(e) => {
            return Err(e);
        },
    };
    let (w, h, chunks) = decoded;
    match parse_provenance(&chunks) {
        Ok(m) => {
            proof {
                assert forall|fs: FsMetaView, tw: u32, th: u32, d: Seq<u8>|
                    thumb_stream_wf(fs, tw, th, d)
                        && bytes@ == #[trigger] thumb_png_bytes_of(fs, tw, th, d)
                        implies w == tw && h == th && m@ == fs by {
                    lemma_provenance_round_trip(fs);
                    assert(chunks.deep_view() =~= provenance_chunks_of(fs));
                }
            }
            Ok((w, h, m))
        },
        Err(e) => {
            proof {
                assert forall|fs: FsMetaView, tw: u32, th: u32, d: Seq<u8>|
                    thumb_stream_wf(fs, tw, th, d)
                        implies bytes@ != #[trigger] thumb_png_bytes_of(fs, tw, th, d) by {
                    if bytes@ == thumb_png_bytes_of(fs, tw, th, d) {
                        lemma_provenance_round_trip(fs);
                        assert(chunks.deep_view() =~= provenance_chunks_of(fs));
                    }
                }
            }
            Err(e)
        },
    }
}

/// Reads only the embedded provenance out of a thumbnail PNG.
pub fn get_thumb_original_metadata(bytes: &Vec<u8>) -> (r: Result<ThumbFsMeta, String>)
    ensures
        r is Ok <==> thumb_info_of(bytes@) is Some,
        thumb_info_of(bytes@) matches Some(t) ==> (r matches Ok(m) && m@ == t.2),
        forall|fs: FsMetaView, tw: u32, th: u32, d: Seq<u8>|
            thumb_stream_wf(fs, tw, th, d)
                && bytes@ == #[trigger] thumb_png_bytes_of(fs, tw, th, d)
                ==> (r matches Ok(m) && m@ == fs),
{
    match read_thumb_info(bytes) {
        Ok(t) => Ok(t.2),
        Err(e) => Err(e),
    }
}

} // verus!
