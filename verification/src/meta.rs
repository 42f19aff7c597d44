//! Provenance of a source file: its URI, its modification time in
//! microseconds since the epoch, and its size in bytes, together with the
//! asymmetric equality that decides cache freshness.

use vstd::prelude::*;

verus! {

/// The mathematical view of a provenance record.
pub struct FsMetaView {
    pub uri: Seq<char>,
    pub mtime_micros: u64,
    pub size: u64,
}

/// Provenance of a source file.
///
/// `mtime_micros` is the modification time in whole microseconds since the
/// epoch; the on-disk text form is seconds with exactly six fractional
/// digits, which this resolution carries losslessly.
pub struct ThumbFsMeta {
    pub uri: String,
    pub mtime_micros: u64,
    pub size: u64,
}

impl View for ThumbFsMeta {
    type V = FsMetaView;

    open spec fn view(&self) -> FsMetaView {
        FsMetaView { uri: self.uri@, mtime_micros: self.mtime_micros, size: self.size }
    }
}

/// Equality used to decide cache freshness. It is asymmetric in size: a
/// record written before sizes were tracked carries size zero and matches
/// any size.
pub open spec fn fs_eq(a: FsMetaView, b: FsMetaView) -> bool {
    a.uri == b.uri && a.mtime_micros == b.mtime_micros
        && (a.size == 0 || b.size == 0 || a.size == b.size)
}

impl ThumbFsMeta {
    pub fn new(uri: String, mtime_micros: u64, size: u64) -> (r: ThumbFsMeta)
        ensures
            r@ == (FsMetaView { uri: uri@, mtime_micros, size }),
    {
        ThumbFsMeta { uri, mtime_micros, size }
    }

    /// Whether two provenance records describe the same unchanged source,
    /// under the size-tolerant equality.
    pub fn same_source(&self, other: &ThumbFsMeta) -> (r: bool)
        ensures
            r == fs_eq(self@, other@),
    {
        self.uri == other.uri && self.mtime_micros == other.mtime_micros
            && (self.size == 0 || other.size == 0 || self.size == other.size)
    }
}

impl Clone for ThumbFsMeta {
    fn clone(&self) -> (r: Self)
        ensures
            r@ == self@,
    {
        ThumbFsMeta {
            uri: self.uri.clone(),
            mtime_micros: self.mtime_micros,
            size: self.size,
        }
    }
}

/// With a zero size on either side, the freshness equality degenerates to
/// agreement of URI and mtime alone.
pub proof fn lemma_size_zero_eq(a: FsMetaView, b: FsMetaView)
    requires
        a.size == 0 || b.size == 0,
    ensures
        fs_eq(a, b) <==> (a.uri == b.uri && a.mtime_micros == b.mtime_micros),
{
}

/// Whole microseconds from the split seconds-and-nanoseconds form a
/// filesystem stat reports, saturating at the largest representable value.
pub fn stat_micros(secs: u64, nanos: u32) -> (r: u64)
    ensures
        (secs as int) * 1000000 + (nanos as int) / 1000 <= u64::MAX as int
            ==> r as int == (secs as int) * 1000000 + (nanos as int) / 1000,
        (secs as int) * 1000000 + (nanos as int) / 1000 > u64::MAX as int
            ==> r == u64::MAX,
{
    if secs > u64::MAX / 1000000 {
        proof {
            assert((secs as int) * 1000000 > u64::MAX as int) by (nonlinear_arith)
                requires secs as int > (u64::MAX as int) / 1000000,
                    1000000 * ((u64::MAX as int) / 1000000) + 1000000 > u64::MAX as int;
        }
        u64::MAX
    } else {
        proof {
            assert((secs as int) * 1000000 <= u64::MAX as int) by (nonlinear_arith)
                requires secs as int <= (u64::MAX as int) / 1000000,
                    1000000 * ((u64::MAX as int) / 1000000) <= u64::MAX as int;
        }
        let base = secs * 1000000;
        let frac = (nanos / 1000) as u64;
        if base > u64::MAX - frac {
            u64::MAX
        } else {
            base + frac
        }
    }
}

/// Provenance plus the pixel dimensions of the original (source) image.
pub struct ThumbFullMeta {
    pub width: u32,
    pub height: u32,
    pub fs: ThumbFsMeta,
}

impl ThumbFullMeta {
    pub fn from(fs: ThumbFsMeta, width: u32, height: u32) -> (r: Self)
        ensures
            r.fs@ == fs@,
            r.width == width,
            r.height == height,
    {
        Self { width, height, fs }
    }
}

} // verus!
