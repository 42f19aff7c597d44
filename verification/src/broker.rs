//! The request broker's verified core: monotonic handle allocation, batch
//! assembly from the bus's parallel URI and MIME lists, and the reply
//! sequence emitted for a finished batch.

use vstd::prelude::*;

use crate::flavor::ThumbFlavor;
use crate::media::{uris_of, Failures, MediaRef, Successes, ThumbJobBatch};
use crate::text::lemma_string_vec_deep_view;

verus! {

/// A reply carried from the compute layer back to the bus surface.
pub enum Reply {
    Ready { handle: u32, uris: Vec<String> },
    Finished { handle: u32 },
    Error { handle: u32, uri: String, message: String },
}

/// The successfully thumbnailed URIs of one batch.
pub struct ThumbReply {
    pub handle: u32,
    pub uris: Vec<String>,
}

/// The kind of a bus signal, for stating what a batch emits.
#[derive(PartialEq, Eq, Structural)]
pub enum SignalKind {
    Started,
    Ready,
    Error,
    Finished,
}

/// Allocates the 32-bit handles that identify batches: they start at one,
/// strictly increase, and are never reused. Overflow is not handled; the
/// counter must not exhaust `u32` within a process lifetime.
pub struct HandleCounter {
    pub next: u32,
}

impl HandleCounter {
    pub fn new() -> (r: Self)
        ensures
            r.next == 1,
    {
        HandleCounter { next: 1 }
    }

    /// Assigns a fresh handle: the current counter value, after which the
    /// counter moves strictly up.
    pub fn fresh_handle(&mut self) -> (h: u32)
        requires
            old(self).next < u32::MAX,
        ensures
            h == old(self).next,
            final(self).next == old(self).next + 1,
    {
        let h = self.next;
        self.next = self.next + 1;
        h
    }
}

/// Handles assigned by successive allocations are strictly increasing: a
/// later allocation always returns a larger handle than an earlier one.
pub proof fn lemma_handles_strictly_increase(
    first: HandleCounter,
    second: HandleCounter,
    h1: u32,
    h2: u32,
)
    requires
        h1 == first.next,
        second.next > first.next,
        h2 == second.next,
    ensures
        h1 < h2,
{
}

/// Assembles one batch from the bus's parallel lists: URIs zipped
/// position-wise with MIME types, truncated to the shorter list.
pub fn make_batch(
    handle: u32,
    flavor: ThumbFlavor,
    uris: &Vec<String>,
    mime_types: &Vec<String>,
) -> (b: ThumbJobBatch)
    ensures
        b.handle == handle,
        b.flavor == flavor,
        b.medias@.len() == if uris@.len() <= mime_types@.len() {
            uris@.len()
        } else {
            mime_types@.len()
        },
        forall|k: int| 0 <= k < b.medias@.len()
            ==> (#[trigger] b.medias@[k]).uri@ == uris@[k]@
                && b.medias@[k].mime_type@ == mime_types@[k]@,
{
    let n = if uris.len() <= mime_types.len() { uris.len() } else { mime_types.len() };
    let mut medias: Vec<MediaRef> = Vec::new();
    let mut k: usize = 0;
    while k < n
        invariant
            k <= n,
            n <= uris@.len(),
            n <= mime_types@.len(),
            medias@.len() == k,
            forall|j: int| 0 <= j < k
                ==> (#[trigger] medias@[j]).uri@ == uris@[j]@
                    && medias@[j].mime_type@ == mime_types@[j]@,
        decreases n - k,
    {
        medias.push(MediaRef {
            uri: uris[k].clone(),
            mime_type: mime_types[k].clone(),
        });
        k = k + 1;
    }
    ThumbJobBatch { handle, flavor, medias }
}

/// The replies emitted for one finished batch, in order: one `Ready`
/// carrying every successful URI, one `Error` per failure, and a terminal
/// `Finished`, which is emitted even if every item failed.
pub fn batch_replies(handle: u32, successes: &Successes, failures: &Failures) -> (r: Vec<Reply>)
    ensures
        r@.len() == failures@.len() + 2,
        r@[0] matches Reply::Ready { handle: h, uris }
            && h == handle && uris.deep_view() == uris_of(successes@),
        forall|k: int| 0 <= k < failures@.len()
            ==> ((#[trigger] r@[k + 1]) matches Reply::Error { handle: h, uri, message }
                && h == handle
                && uri@ == failures@[k].0.uri@
                && message@ == failures@[k].1@),
        r@[r@.len() - 1] matches Reply::Finished { handle: h } && h == handle,
{
    let mut out: Vec<Reply> = Vec::new();
    let mut uris: Vec<String> = Vec::new();
    let mut i: usize = 0;
    while i < successes.len()
        invariant
            i <= successes@.len(),
            uris.deep_view() == uris_of(successes@.take(i as int)),
        decreases successes@.len() - i,
    {
        let u = successes[i].uri.clone();
        let ghost pre = uris@;
        let ghost predv = uris.deep_view();
        proof {
            lemma_string_vec_deep_view(uris);
        }
        uris.push(u);
        proof {
            lemma_string_vec_deep_view(uris);
            let dv = uris.deep_view();
            let tv = uris_of(successes@.take(i as int + 1));
            assert(dv.len() == tv.len());
            assert forall|j: int| 0 <= j < dv.len() implies dv[j] == tv[j] by {
                assert(tv[j] == successes@.take(i as int + 1)[j].uri@);
                if j < i as int {
                    assert(uris@[j] == pre[j]);
                    assert(dv[j] == predv[j]);
                    assert(predv[j] == uris_of(successes@.take(i as int))[j]);
                } else {
                    assert(uris@[j] == u);
                    assert(u@ == successes@[i as int].uri@);
                }
            }
            assert(dv =~= tv);
        }
        i = i + 1;
    }
    proof {
        assert(successes@.take(successes@.len() as int) =~= successes@);
        assert(uris.deep_view() =~= uris_of(successes@));
    }
    out.push(Reply::Ready { handle, uris });
    let mut k: usize = 0;
    while k < failures.len()
        invariant
            k <= failures@.len(),
            out@.len() == k + 1,
            out@[0] matches Reply::Ready { handle: h, uris }
                && h == handle && uris.deep_view() == uris_of(successes@),
            forall|j: int| 0 <= j < k
                ==> ((#[trigger] out@[j + 1]) matches Reply::Error { handle: h, uri, message }
                    && h == handle
                    && uri@ == failures@[j].0.uri@
                    && message@ == failures@[j].1@),
        decreases failures@.len() - k,
    {
        out.push(Reply::Error {
            handle,
            uri: failures[k].0.uri.clone(),
            message: failures[k].1.clone(),
        });
        k = k + 1;
    }
    out.push(Reply::Finished { handle });
    out
}

/// The kind of each reply.
pub open spec fn kind_of(r: Reply) -> SignalKind {
    match r {
        Reply::Ready { .. } => SignalKind::Ready,
        Reply::Error { .. } => SignalKind::Error,
        Reply::Finished { .. } => SignalKind::Finished,
    }
}

/// The kinds of a reply sequence, in order.
pub open spec fn kinds_of(rs: Seq<Reply>) -> Seq<SignalKind> {
    rs.map_values(|r: Reply| kind_of(r))
}

/// How often a kind occurs in a signal sequence.
pub open spec fn count_kind(s: Seq<SignalKind>, k: SignalKind) -> nat
    decreases s.len(),
{
    if s.len() == 0 {
        0
    } else {
        count_kind(s.drop_last(), k) + if s.last() == k { 1nat } else { 0nat }
    }
}

proof fn lemma_count_kind_concat(a: Seq<SignalKind>, b: Seq<SignalKind>, k: SignalKind)
    ensures
        count_kind(a + b, k) == count_kind(a, k) + count_kind(b, k),
    decreases b.len(),
{
    if b.len() == 0 {
        assert(a + b =~= a);
    } else {
        lemma_count_kind_concat(a, b.drop_last(), k);
        assert((a + b).drop_last() =~= a + b.drop_last());
        assert((a + b).last() == b.last());
    }
}

/// The signal multiset of one batch: the `Started` emitted when the batch
/// is received, followed by the kinds of its replies. For every handle
/// there is exactly one `Started`, one `Ready`, one `Finished`, and one
/// `Error` per failure.
pub proof fn lemma_signal_counts(rs: Seq<Reply>, n_failures: nat, emitted: Seq<SignalKind>)
    requires
        rs.len() == n_failures + 2,
        kind_of(rs[0]) == SignalKind::Ready,
        forall|k: int| 0 <= k < n_failures ==> kind_of(#[trigger] rs[k + 1]) == SignalKind::Error,
        kind_of(rs[rs.len() - 1]) == SignalKind::Finished,
        emitted == seq![SignalKind::Started] + kinds_of(rs),
    ensures
        count_kind(emitted, SignalKind::Started) == 1,
        count_kind(emitted, SignalKind::Ready) == 1,
        count_kind(emitted, SignalKind::Error) == n_failures,
        count_kind(emitted, SignalKind::Finished) == 1,
{
    let ks = kinds_of(rs);
    let errors = ks.subrange(1, rs.len() - 1);
    assert(ks =~= (seq![SignalKind::Ready] + errors) + seq![SignalKind::Finished]) by {
        assert forall|j: int| 0 <= j < ks.len() implies ks[j]
            == ((seq![SignalKind::Ready] + errors) + seq![SignalKind::Finished])[j] by {
            if 1 <= j < ks.len() - 1 {
                assert(kind_of(rs[(j - 1) + 1]) == SignalKind::Error);
            }
        }
    }
    lemma_count_errors(errors);
    lemma_count_kind_concat(seq![SignalKind::Ready] + errors, seq![SignalKind::Finished],
        SignalKind::Started);
    lemma_count_kind_concat(seq![SignalKind::Ready], errors, SignalKind::Started);
    lemma_count_kind_concat(seq![SignalKind::Ready] + errors, seq![SignalKind::Finished],
        SignalKind::Ready);
    lemma_count_kind_concat(seq![SignalKind::Ready], errors, SignalKind::Ready);
    lemma_count_kind_concat(seq![SignalKind::Ready] + errors, seq![SignalKind::Finished],
        SignalKind::Error);
    lemma_count_kind_concat(seq![SignalKind::Ready], errors, SignalKind::Error);
    lemma_count_kind_concat(seq![SignalKind::Ready] + errors, seq![SignalKind::Finished],
        SignalKind::Finished);
    lemma_count_kind_concat(seq![SignalKind::Ready], errors, SignalKind::Finished);
    lemma_count_kind_concat(seq![SignalKind::Started], ks, SignalKind::Started);
    lemma_count_kind_concat(seq![SignalKind::Started], ks, SignalKind::Ready);
    lemma_count_kind_concat(seq![SignalKind::Started], ks, SignalKind::Error);
    lemma_count_kind_concat(seq![SignalKind::Started], ks, SignalKind::Finished);
    lemma_count_singleton(SignalKind::Ready);
    lemma_count_singleton(SignalKind::Finished);
    lemma_count_singleton(SignalKind::Started);
}

proof fn lemma_count_singleton(k: SignalKind)
    ensures
        forall|x: SignalKind| count_kind(seq![k], x) == if x == k { 1nat } else { 0nat },
{
    assert forall|x: SignalKind| count_kind(seq![k], x) == if x == k { 1nat } else { 0nat } by {
        assert(seq![k].drop_last() =~= Seq::<SignalKind>::empty());
        assert(count_kind(seq![k].drop_last(), x) == 0);
    }
}

proof fn lemma_count_errors(errors: Seq<SignalKind>)
    requires
        forall|j: int| 0 <= j < errors.len() ==> errors[j] == SignalKind::Error,
    ensures
        count_kind(errors, SignalKind::Error) == errors.len(),
        count_kind(errors, SignalKind::Started) == 0,
        count_kind(errors, SignalKind::Ready) == 0,
        count_kind(errors, SignalKind::Finished) == 0,
    decreases errors.len(),
{
    if errors.len() > 0 {
        lemma_count_errors(errors.drop_last());
    }
}

} // verus!
