//! Cache filename derivation: MD5 of the URI, rendered as lowercase hex,
//! with the `.png` suffix for the destination and a `.tmp<id>` suffix for
//! the per-item temporary file.

use vstd::prelude::*;
use vstd::string::StringExecFns;

use crate::text::{dec_of, hex_of, hex_to_string, push_u64_decimal};

verus! {

/// The MD5 digest of a string's bytes. MD5 is used for compatibility with
/// the freedesktop thumbnail naming convention, not as a security primitive.
pub uninterp spec fn md5_of(s: Seq<char>) -> Seq<u8>;

/// Relies on `md5::compute`: the digest is sixteen bytes and a function of
/// the input alone.
#[verifier::external_body]
fn md5_digest(s: &str) -> (r: Vec<u8>)
    ensures
        r@ == md5_of(s@),
        r@.len() == 16,
{
    md5::compute(s.as_bytes()).0.to_vec()
}

/// The filename stem for a URI: its MD5 digest in lowercase hex.
pub open spec fn uri_hash_of(uri: Seq<char>) -> Seq<char> {
    hex_of(md5_of(uri))
}

fn uri_hash(uri: &str) -> (r: String)
    ensures
        r@ == uri_hash_of(uri@),
{
    let digest = md5_digest(uri);
    hex_to_string(&digest)
}

pub open spec fn destination_filename_of(dir: Seq<char>, uri: Seq<char>) -> Seq<char> {
    dir + "/"@ + uri_hash_of(uri) + ".png"@
}

/// The cache destination path for a URI inside `dir`.
pub fn destination_filename(dir: &str, uri: &str) -> (r: String)
    ensures
        r@ == destination_filename_of(dir@, uri@),
{
    let hash = uri_hash(uri);
    let mut s = String::from_str(dir);
    s.append("/");
    s.append(hash.as_str());
    s.append(".png");
    proof {
        assert(s@ =~= destination_filename_of(dir@, uri@));
    }
    s
}

pub open spec fn temp_filename_of(dir: Seq<char>, uri: Seq<char>, id: nat) -> Seq<char> {
    dir + "/"@ + uri_hash_of(uri) + ".tmp"@ + dec_of(id)
}

/// The transient path an item writes before the atomic rename; `id` keeps
/// concurrent writers within a chunk from colliding.
pub fn temp_filename(dir: &str, uri: &str, id: usize) -> (r: String)
    ensures
        r@ == temp_filename_of(dir@, uri@, id as nat),
{
    let hash = uri_hash(uri);
    let mut s = String::from_str(dir);
    s.append("/");
    s.append(hash.as_str());
    s.append(".tmp");
    push_u64_decimal(&mut s, id as u64);
    proof {
        assert(s@ =~= temp_filename_of(dir@, uri@, id as nat));
    }
    s
}

/// The destination filename is a function of the directory and the URI
/// alone: any two derivations from the same inputs agree.
pub proof fn lemma_destination_filename_deterministic(
    dir: Seq<char>,
    uri: Seq<char>,
    a: Seq<char>,
    b: Seq<char>,
)
    requires
        a == destination_filename_of(dir, uri),
        b == destination_filename_of(dir, uri),
    ensures
        a == b,
{
}

} // verus!
