//! The provenance codec: the three text chunks that carry a source file's
//! URI, mtime and size inside a thumbnail PNG, and their round trip.
//!
//! The keywords `Thumb::URI`, `Thumb::MTime` and `Thumb::Size`, the
//! six-fractional-digit mtime format and the decimal size are the
//! compatibility boundary with other Thumbnailer1 implementations.

use vstd::prelude::*;
use vstd::string::StringExecFns;
use vstd::string::StrSliceExecFns;

use crate::meta::{FsMetaView, ThumbFsMeta};
use crate::text::{
    all_dec_digits, dec_of, digits_val, is_dec_digit, lemma_dec_of_digits,
    lemma_digits_val_bound, lemma_pad_dec_digits, pad_dec, parse_u64_decimal, pow10,
    push_pad_decimal, push_u64_decimal, str_eq, u64_to_string,
};

verus! {

/// The mtime text form of a microsecond timestamp: whole seconds, a dot,
/// then exactly six fractional digits.
pub open spec fn mtime_text_of(micros: u64) -> Seq<char> {
    dec_of((micros / 1000000) as nat) + seq!['.'] + pad_dec((micros % 1000000) as nat, 6)
}

/// Position `i` splits `s` into a nonempty run of digits, a dot, and
/// exactly six digits.
pub open spec fn is_mtime_split(s: Seq<char>, i: int) -> bool {
    &&& 0 <= i < s.len()
    &&& s[i] == '.'
    &&& i > 0
    &&& all_dec_digits(s.take(i))
    &&& s.len() - i - 1 == 6
    &&& all_dec_digits(s.skip(i + 1))
}

/// The microsecond value carried by an mtime text, if it is well formed and
/// fits in a `u64`.
pub open spec fn mtime_of_text(s: Seq<char>) -> Option<u64> {
    if exists|i: int| is_mtime_split(s, i) {
        let i = choose|i: int| is_mtime_split(s, i);
        let v = digits_val(s.take(i)) * 1000000 + digits_val(s.skip(i + 1));
        if v <= u64::MAX as nat {
            Some(v as u64)
        } else {
            None
        }
    } else {
        None
    }
}

proof fn lemma_pow10_6()
    ensures
        pow10(6) == 1000000,
{
    reveal_with_fuel(pow10, 8);
}

/// The provenance chunks written for a record: keyword/value pairs in the
/// fixed order URI, MTime, Size.
pub open spec fn provenance_chunks_of(fs: FsMetaView) -> Seq<(Seq<char>, Seq<char>)> {
    seq![
        ("Thumb::URI"@, fs.uri),
        ("Thumb::MTime"@, mtime_text_of(fs.mtime_micros)),
        ("Thumb::Size"@, dec_of(fs.size as nat)),
    ]
}

/// Builds the three provenance chunks for a record.
pub fn provenance_chunks(fs: &ThumbFsMeta) -> (r: Vec<(String, String)>)
    ensures
        r.deep_view() == provenance_chunks_of(fs@),
{
    let mut v: Vec<(String, String)> = Vec::new();
    v.push((String::from_str("Thumb::URI"), fs.uri.clone()));
    v.push((String::from_str("Thumb::MTime"), format_mtime(fs.mtime_micros)));
    v.push((String::from_str("Thumb::Size"), u64_to_string(fs.size)));
    proof {
        assert(v.deep_view() =~= provenance_chunks_of(fs@));
    }
    v
}

/// The mtime text form: whole seconds, a dot, then exactly six fractional
/// digits, as an owned string.
pub fn format_mtime(micros: u64) -> (r: String)
    ensures
        r@ == mtime_text_of(micros),
{
    let mut s = String::new();
    push_u64_decimal(&mut s, micros / 1000000);
    s.append(".");
    push_pad_decimal(&mut s, micros % 1000000, 6);
    proof {
        reveal_strlit(".");
        assert("."@ =~= seq!['.']);
        assert(s@ =~= mtime_text_of(micros));
    }
    s
}

/// Any two valid splits of an mtime text coincide.
proof fn lemma_mtime_split_unique(s: Seq<char>, i: int, j: int)
    requires
        is_mtime_split(s, i),
        is_mtime_split(s, j),
    ensures
        i == j,
{
    if i < j {
        assert(s.skip(i + 1)[j - i - 1] == s[j]);
        assert(!is_dec_digit('.'));
    }
    if j < i {
        assert(s.skip(j + 1)[i - j - 1] == s[i]);
        assert(!is_dec_digit('.'));
    }
}

/// Parses the six-fractional-digit mtime text form back to microseconds.
pub fn parse_mtime(s: &str) -> (r: Option<u64>)
    ensures
        r == mtime_of_text(s@),
{
    let len = s.unicode_len();
    let ghost sv = s@;
    let mut i: usize = 0;
    let mut dot: usize = 0;
    let mut found = false;
    while i < len && !found
        invariant
            0 <= i <= len == sv.len(),
            sv == s@,
            !found ==> forall|j: int| 0 <= j < i ==> sv[j] != '.',
            found ==> dot < i && sv[dot as int] == '.'
                && (forall|j: int| 0 <= j < dot ==> sv[j] != '.'),
        decreases len - i,
    {
        if s.get_char(i) == '.' {
            dot = i;
            found = true;
        }
        i = i + 1;
    }
    if !found {
        proof {
            assert forall|k: int| !is_mtime_split(sv, k) by {
                if 0 <= k < sv.len() {
                    assert(sv[k] != '.');
                }
            }
        }
        return None;
    }
    proof {
        assert forall|k: int| #[trigger] is_mtime_split(sv, k) implies k == dot as int by {
            if k < dot as int {
                assert(sv[k] != '.');
            }
            if k > dot as int {
                assert(sv.take(k)[dot as int] == sv[dot as int]);
                assert(!is_dec_digit('.'));
                assert(!all_dec_digits(sv.take(k)));
            }
        }
    }
    if len - dot - 1 != 6 {
        proof {
            assert(!is_mtime_split(sv, dot as int));
        }
        return None;
    }
    let sec_str = s.substring_char(0, dot);
    let frac_str = s.substring_char(dot + 1, len);
    proof {
        assert(sec_str@ =~= sv.take(dot as int));
        assert(frac_str@ =~= sv.skip(dot as int + 1));
    }
    let sec = match parse_u64_decimal(sec_str) {
        Some(v) => v,
        None => {
            proof {
                // If a split existed it would be at `dot`; the whole part is
                // then nonempty digits, so the parse can only have failed on
                // overflow, which overflows the combined value as well.
                if is_mtime_split(sv, dot as int) {
                    let sval = digits_val(sv.take(dot as int));
                    assert(sval > u64::MAX as nat);
                    assert(sval * 1000000 >= sval) by (nonlinear_arith);
                }
            }
            return None;
        },
    };
    let frac = match parse_u64_decimal(frac_str) {
        Some(v) => v,
        None => {
            proof {
                // Six digits always parse and fit, so no split exists.
                if is_mtime_split(sv, dot as int) {
                    lemma_digits_val_bound(sv.skip(dot as int + 1));
                    lemma_pow10_6();
                }
            }
            return None;
        },
    };
    proof {
        lemma_digits_val_bound(frac_str@);
        lemma_pow10_6();
        assert(is_mtime_split(sv, dot as int));
    }
    let total: u128 = sec as u128 * 1000000 + frac as u128;
    if total > 0xffff_ffff_ffff_ffff {
        return None;
    }
    Some(total as u64)
}

/// Parsing the written mtime text always recovers the microsecond value.
pub proof fn lemma_mtime_round_trip(micros: u64)
    ensures
        mtime_of_text(mtime_text_of(micros)) == Some(micros),
{
    let sec = (micros / 1000000) as nat;
    let frac = (micros % 1000000) as nat;
    let s = mtime_text_of(micros);
    let i = dec_of(sec).len() as int;
    lemma_dec_of_digits(sec);
    lemma_pad_dec_digits(frac, 6);
    lemma_pow10_6();
    assert(s.take(i) =~= dec_of(sec));
    assert(s[i] == '.');
    assert(s.skip(i + 1) =~= pad_dec(frac, 6));
    assert(is_mtime_split(s, i));
    let c = choose|k: int| is_mtime_split(s, k);
    lemma_mtime_split_unique(s, c, i);
    assert(digits_val(s.take(i)) * 1000000 + digits_val(s.skip(i + 1))
        == sec * 1000000 + frac);
    assert(sec * 1000000 + frac == micros) by (nonlinear_arith)
        requires sec == micros / 1000000, frac == micros % 1000000;
}

/// What a left-to-right scan of the chunks leaves for the three keywords:
/// later occurrences overwrite earlier ones, and an unparseable mtime or
/// size overwrites a parseable one.
pub open spec fn scan_provenance(chunks: Seq<(Seq<char>, Seq<char>)>)
    -> (Option<Seq<char>>, Option<u64>, Option<u64>)
    decreases chunks.len(),
{
    if chunks.len() == 0 {
        (None, None, None)
    } else {
        let prev = scan_provenance(chunks.drop_last());
        let k = chunks.last().0;
        let v = chunks.last().1;
        if k == "Thumb::URI"@ {
            (Some(v), prev.1, prev.2)
        } else if k == "Thumb::MTime"@ {
            (prev.0, mtime_of_text(v), prev.2)
        } else if k == "Thumb::Size"@ {
            (prev.0, prev.1, size_of_text(v))
        } else {
            prev
        }
    }
}

/// The size chunk's value: a decimal byte count.
pub open spec fn size_of_text(v: Seq<char>) -> Option<u64> {
    if v.len() > 0 && all_dec_digits(v) && digits_val(v) <= u64::MAX as nat {
        Some(digits_val(v) as u64)
    } else {
        None
    }
}

/// The provenance read from a chunk list: URI and mtime are required, size
/// defaults to zero.
pub open spec fn parse_provenance_spec(chunks: Seq<(Seq<char>, Seq<char>)>)
    -> Option<FsMetaView>
{
    let scanned = scan_provenance(chunks);
    if scanned.0 is Some && scanned.1 is Some {
        Some(FsMetaView {
            uri: scanned.0->0,
            mtime_micros: scanned.1->0,
            size: if scanned.2 is Some { scanned.2->0 } else { 0 },
        })
    } else {
        None
    }
}

/// Reads the provenance out of a PNG's text chunks; unknown keywords are
/// ignored, a missing URI or mtime is a parse failure, a missing size
/// defaults to zero.
pub fn parse_provenance(chunks: &Vec<(String, String)>) -> (r: Result<ThumbFsMeta, String>)
    ensures
        r matches Ok(m) ==> parse_provenance_spec(chunks.deep_view()) == Some(m@),
        r is Err ==> parse_provenance_spec(chunks.deep_view()) is None,
{
    let ghost cv = chunks.deep_view();
    let mut uri: Option<String> = None;
    let mut mtime: Option<u64> = None;
    let mut size: Option<u64> = None;
    let mut i: usize = 0;
    while i < chunks.len()
        invariant
            0 <= i <= chunks@.len(),
            cv == chunks.deep_view(),
            cv.len() == chunks@.len(),
            forall|j: int| 0 <= j < chunks@.len()
                ==> #[trigger] cv[j] == (chunks@[j].0@, chunks@[j].1@),
            scan_provenance(cv.take(i as int)) == (uri.deep_view(), mtime, size),
        decreases chunks@.len() - i,
    {
        let k = &chunks[i].0;
        let v = &chunks[i].1;
        proof {
            assert(cv.take(i as int + 1).drop_last() =~= cv.take(i as int));
            assert(cv.take(i as int + 1).last() == cv[i as int]);
        }
        if str_eq(k.as_str(), "Thumb::URI") {
            uri = Some(v.clone());
        } else if str_eq(k.as_str(), "Thumb::MTime") {
            mtime = parse_mtime(v.as_str());
        } else if str_eq(k.as_str(), "Thumb::Size") {
            size = parse_u64_decimal(v.as_str());
            proof {
                if size is None {
                    assert(size_of_text(v@) is None);
                }
            }
        }
        i = i + 1;
    }
    proof {
        assert(cv.take(cv.len() as int) =~= cv);
    }
    let uri = match uri {
        Some(u) => u,
        None => {
            return Err(String::from_str("missing uri"));
        },
    };
    let mtime = match mtime {
        Some(m) => m,
        None => {
            return Err(String::from_str("missing mtime"));
        },
    };
    let size = match size {
        Some(z) => z,
        None => 0,
    };
    Ok(ThumbFsMeta { uri, mtime_micros: mtime, size })
}

/// Reading back the chunks written for a record recovers the record exactly.
pub proof fn lemma_provenance_round_trip(fs: FsMetaView)
    ensures
        parse_provenance_spec(provenance_chunks_of(fs)) == Some(fs),
{
    let chunks = provenance_chunks_of(fs);
    reveal_strlit("Thumb::URI");
    reveal_strlit("Thumb::MTime");
    reveal_strlit("Thumb::Size");
    assert("Thumb::URI"@.len() == 10);
    assert("Thumb::MTime"@.len() == 12);
    assert("Thumb::Size"@.len() == 11);
    assert("Thumb::Size"@ != "Thumb::URI"@);
    assert("Thumb::Size"@ != "Thumb::MTime"@);
    assert("Thumb::MTime"@ != "Thumb::URI"@);
    assert(chunks.drop_last() =~= seq![
        ("Thumb::URI"@, fs.uri),
        ("Thumb::MTime"@, mtime_text_of(fs.mtime_micros)),
    ]);
    assert(chunks.drop_last().drop_last() =~= seq![("Thumb::URI"@, fs.uri)]);
    assert(chunks.drop_last().drop_last().drop_last() =~= Seq::<(Seq<char>, Seq<char>)>::empty());
    lemma_mtime_round_trip(fs.mtime_micros);
    lemma_dec_of_digits(fs.size as nat);
    assert(size_of_text(dec_of(fs.size as nat)) == Some(fs.size));
    let c2 = chunks.drop_last();
    let c1 = c2.drop_last();
    let c0 = c1.drop_last();
    assert(scan_provenance(c0) == (None::<Seq<char>>, None::<u64>, None::<u64>));
    assert(c1.last() == ("Thumb::URI"@, fs.uri));
    assert(scan_provenance(c1) == (Some(fs.uri), None::<u64>, None::<u64>));
    assert(c2.last() == ("Thumb::MTime"@, mtime_text_of(fs.mtime_micros)));
    assert(scan_provenance(c2) == (Some(fs.uri), Some(fs.mtime_micros), None::<u64>));
    assert(chunks.last() == ("Thumb::Size"@, dec_of(fs.size as nat)));
    assert(scan_provenance(chunks) == (Some(fs.uri), Some(fs.mtime_micros), Some(fs.size)));
}

} // verus!
