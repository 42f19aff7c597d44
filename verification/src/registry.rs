//! The provider registry: MIME-keyed dispatch, batch partitioning and
//! chunking, and the partial-failure discipline — every medium of a batch
//! lands in exactly one of the success and failure lists.

use vstd::prelude::*;
use vstd::multiset::Multiset;

use crate::flavor::ThumbFlavor;
use crate::media::{failure_views_of, views_of, Failures, MediaRef, MediaView, Successes,
    ThumbJob, ThumbJobBatch};
use crate::provider::Provider;
use crate::text::{lemma_string_vec_deep_view, str_eq};

verus! {

/// The multiset of media views in a sequence.
pub open spec fn media_ms(s: Seq<MediaRef>) -> Multiset<MediaView> {
    views_of(s).to_multiset()
}

/// The multiset of media views in a failure sequence.
pub open spec fn failure_media_ms(s: Seq<(MediaRef, String)>) -> Multiset<MediaView> {
    failure_views_of(s).to_multiset()
}

proof fn lemma_media_ms_push(s: Seq<MediaRef>, m: MediaRef)
    ensures
        media_ms(s.push(m)) == media_ms(s).insert(m@),
{
    assert(views_of(s.push(m)) =~= views_of(s).push(m@));
    views_of(s).to_multiset_ensures();
    assert(media_ms(s.push(m)) =~= media_ms(s).insert(m@));
}

proof fn lemma_media_ms_drop_last(s: Seq<MediaRef>)
    requires
        s.len() > 0,
    ensures
        media_ms(s) == media_ms(s.drop_last()).insert(s.last()@),
{
    assert(s =~= s.drop_last().push(s.last()));
    lemma_media_ms_push(s.drop_last(), s.last());
}

proof fn lemma_failure_media_ms_push(s: Seq<(MediaRef, String)>, p: (MediaRef, String))
    ensures
        failure_media_ms(s.push(p)) == failure_media_ms(s).insert(p.0@),
{
    assert(failure_views_of(s.push(p)) =~= failure_views_of(s).push(p.0@));
    failure_views_of(s).to_multiset_ensures();
    assert(failure_media_ms(s.push(p)) =~= failure_media_ms(s).insert(p.0@));
}

proof fn lemma_media_ms_empty()
    ensures
        media_ms(Seq::<MediaRef>::empty()) == Multiset::<MediaView>::empty(),
{
    broadcast use vstd::multiset::group_multiset_axioms;

    let u = views_of(Seq::<MediaRef>::empty());
    assert(u =~= Seq::<MediaView>::empty());
    u.to_multiset_ensures();
    assert(u.to_multiset() =~= Multiset::<MediaView>::empty()) by {
        assert forall|x: MediaView| u.to_multiset().count(x) == 0 by {
            if u.to_multiset().count(x) > 0 {
                assert(u.contains(x));
            }
        }
    }
}

/// The media-view multiset of a group list, summed over the groups' members.
pub open spec fn groups_media_ms(gs: Seq<(String, Vec<MediaRef>)>) -> Multiset<MediaView>
    decreases gs.len(),
{
    if gs.len() == 0 {
        Multiset::empty()
    } else {
        groups_media_ms(gs.drop_last()).add(media_ms(gs.last().1@))
    }
}

proof fn lemma_groups_ms_push(gs: Seq<(String, Vec<MediaRef>)>, g: (String, Vec<MediaRef>))
    ensures
        groups_media_ms(gs.push(g)) == groups_media_ms(gs).add(media_ms(g.1@)),
{
    assert(gs.push(g).drop_last() =~= gs);
    assert(gs.push(g).last() == g);
}

proof fn lemma_groups_ms_remove(gs: Seq<(String, Vec<MediaRef>)>, k: int)
    requires
        0 <= k < gs.len(),
    ensures
        groups_media_ms(gs) == groups_media_ms(gs.remove(k)).add(media_ms(gs[k].1@)),
    decreases gs.len(),
{
    broadcast use vstd::multiset::group_multiset_axioms;

    if k == gs.len() - 1 {
        assert(gs.remove(k) =~= gs.drop_last());
    } else {
        lemma_groups_ms_remove(gs.drop_last(), k);
        assert(gs.remove(k).drop_last() =~= gs.drop_last().remove(k));
        assert(gs.remove(k).last() == gs.last());
        assert(gs.drop_last()[k] == gs[k]);
        assert(groups_media_ms(gs.remove(k)).add(media_ms(gs[k].1@))
            =~= groups_media_ms(gs));
    }
}

/// The media-view multiset of a chunk list, summed over the chunks' members.
pub open spec fn chunks_media_ms(cs: Seq<Vec<MediaRef>>) -> Multiset<MediaView>
    decreases cs.len(),
{
    if cs.len() == 0 {
        Multiset::empty()
    } else {
        chunks_media_ms(cs.drop_last()).add(media_ms(cs.last()@))
    }
}

proof fn lemma_chunks_ms_push(cs: Seq<Vec<MediaRef>>, c: Vec<MediaRef>)
    ensures
        chunks_media_ms(cs.push(c)) == chunks_media_ms(cs).add(media_ms(c@)),
{
    assert(cs.push(c).drop_last() =~= cs);
    assert(cs.push(c).last() == c);
}

/// The provider index registered for a MIME type: the earliest entry wins.
pub open spec fn mime_lookup(entries: Seq<(String, usize)>, mime: Seq<char>) -> Option<usize>
    decreases entries.len(),
{
    if entries.len() == 0 {
        None
    } else if entries[0].0@ == mime {
        Some(entries[0].1)
    } else {
        mime_lookup(entries.drop_first(), mime)
    }
}

/// Maps MIME types to registered providers and carries the cache root and
/// the chunk size the dispatcher splits groups into.
pub struct ProviderRegistry<P: Provider> {
    pub providers: Vec<P>,
    pub mime_map: Vec<(String, usize)>,
    pub cache_dir: String,
    pub chunk_size: usize,
}

impl<P: Provider> ProviderRegistry<P> {
    fn lookup(&self, mime: &str) -> (r: Option<usize>)
        ensures
            r == mime_lookup(self.mime_map@, mime@),
    {
        entries_lookup(&self.mime_map, mime)
    }

    /// Every MIME type the registry dispatches: the built map's keys, in
    /// map order — the union of the registered claims, the first
    /// registration having deduplicated.
    pub fn supported_mime_types(&self) -> (r: Vec<String>)
        ensures
            r.deep_view() == self.mime_map@.map_values(|e: (String, usize)| e.0@),
    {
        let mut all: Vec<String> = Vec::new();
        let mut i: usize = 0;
        while i < self.mime_map.len()
            invariant
                i <= self.mime_map@.len(),
                all.deep_view() == self.mime_map@.map_values(|e: (String, usize)| e.0@)
                    .take(i as int),
            decreases self.mime_map@.len() - i,
        {
            let ghost pre = all@;
            proof {
                lemma_string_vec_deep_view(all);
            }
            all.push(self.mime_map[i].0.clone());
            proof {
                lemma_string_vec_deep_view(all);
                let t = self.mime_map@.map_values(|e: (String, usize)| e.0@);
                assert forall|j: int| 0 <= j < all.deep_view().len()
                    implies all.deep_view()[j] == t.take(i as int + 1)[j] by {
                    if j < pre.len() {
                        assert(all@[j] == pre[j]);
                    }
                }
                assert(all.deep_view() =~= t.take(i as int + 1));
            }
            i = i + 1;
        }
        proof {
            let t = self.mime_map@.map_values(|e: (String, usize)| e.0@);
            assert(t.take(t.len() as int) =~= t);
        }
        all
    }

    /// The provider registered for a MIME type: `Some` exactly when the
    /// map holds the type, and then the first-registered claimant that
    /// `build` stored.
    pub fn get_provider(&self, mime: &str) -> (r: Option<&P>)
        ensures
            r is Some <==> (mime_lookup(self.mime_map@, mime@) matches Some(i)
                && i < self.providers@.len()),
            mime_lookup(self.mime_map@, mime@) matches Some(i)
                ==> (i < self.providers@.len()
                    ==> (r matches Some(p) && *p == self.providers@[i as int])),
    {
        match self.lookup(mime) {
            Some(idx) => {
                if idx < self.providers.len() {
                    Some(&self.providers[idx])
                } else {
                    None
                }
            },
            None => None,
        }
    }

    /// Splits one MIME group, traversed in reverse insertion order, into
    /// chunks of at most the registry's chunk size (a zero size acts as
    /// one). No medium is lost or duplicated.
    fn chunk_group(&self, group: Vec<MediaRef>) -> (chunks: Vec<Vec<MediaRef>>)
        ensures
            chunks_media_ms(chunks@) == media_ms(group@),
            chunks_len(chunks@) == group@.len(),
    {
        broadcast use vstd::multiset::group_multiset_axioms;

        let effective: usize = if self.chunk_size == 0 { 1 } else { self.chunk_size };
        let ghost total = media_ms(group@);
        let ghost total_len = group@.len();
        let mut rest = group;
        let mut chunks: Vec<Vec<MediaRef>> = Vec::new();
        let mut cur: Vec<MediaRef> = Vec::new();
        proof {
            lemma_media_ms_empty();
            assert(chunks_media_ms(chunks@).add(media_ms(cur@)).add(media_ms(rest@)) =~= total);
        }
        while rest.len() > 0
            invariant
                effective >= 1,
                chunks_media_ms(chunks@).add(media_ms(cur@)).add(media_ms(rest@)) == total,
                chunks_len(chunks@) + cur@.len() + rest@.len() == total_len,
            decreases rest@.len(),
        {
            proof {
                lemma_media_ms_drop_last(rest@);
            }
            let m = rest.pop().unwrap();
            proof {
                lemma_media_ms_push(cur@, m);
            }
            cur.push(m);
            if cur.len() >= effective {
                proof {
                    lemma_chunks_ms_push(chunks@, cur);
                    lemma_chunks_len_push(chunks@, cur);
                    lemma_media_ms_empty();
                }
                chunks.push(cur);
                cur = Vec::new();
            }
            proof {
                assert(chunks_media_ms(chunks@).add(media_ms(cur@)).add(media_ms(rest@)) =~= total);
            }
        }
        proof {
            assert(rest@ =~= Seq::<MediaRef>::empty());
            lemma_media_ms_empty();
        }
        if cur.len() > 0 {
            proof {
                lemma_chunks_ms_push(chunks@, cur);
                lemma_chunks_len_push(chunks@, cur);
            }
            chunks.push(cur);
        } else {
            proof {
                assert(cur@ =~= Seq::<MediaRef>::empty());
            }
        }
        proof {
            assert(chunks_media_ms(chunks@) =~= total);
        }
        chunks
    }

    /// Groups a batch's media by declared MIME type. Only the multiset of
    /// media is promised: group order and in-group order are dispatch
    /// strategy, not contract.
    fn group_by_mime(&self, medias: &Vec<MediaRef>) -> (groups: Vec<(String, Vec<MediaRef>)>)
        ensures
            groups_media_ms(groups@) == media_ms(medias@),
            groups_len(groups@) == medias@.len(),
    {
        broadcast use vstd::multiset::group_multiset_axioms;

        let mut groups: Vec<(String, Vec<MediaRef>)> = Vec::new();
        let mut i: usize = 0;
        proof {
            lemma_media_ms_empty();
            assert(medias@.take(0) =~= Seq::<MediaRef>::empty());
        }
        while i < medias.len()
            invariant
                i <= medias@.len(),
                groups_media_ms(groups@) == media_ms(medias@.take(i as int)),
                groups_len(groups@) == i,
            decreases medias@.len() - i,
        {
            let ghost before = groups@;
            let mut found: Option<usize> = None;
            let mut k: usize = 0;
            while k < groups.len()
                invariant
                    i < medias@.len(),
                    k <= groups@.len(),
                    groups@ == before,
                    found matches Some(j) ==> j < groups@.len(),
                decreases groups@.len() - k,
            {
                if str_eq(groups[k].0.as_str(), medias[i].mime_type.as_str()) {
                    found = Some(k);
                }
                k = k + 1;
            }
            let m = medias[i].clone();
            match found {
                Some(j) => {
                    proof {
                        lemma_groups_ms_remove(groups@, j as int);
                        lemma_groups_len_remove(groups@, j as int);
                    }
                    let mut kv = groups.remove(j);
                    proof {
                        lemma_media_ms_push(kv.1@, m);
                    }
                    kv.1.push(m);
                    proof {
                        lemma_groups_ms_push(groups@, kv);
                        lemma_groups_len_push(groups@, kv);
                    }
                    groups.push(kv);
                },
                None => {
                    let mut g: Vec<MediaRef> = Vec::new();
                    proof {
                        lemma_media_ms_empty();
                        lemma_media_ms_push(g@, m);
                    }
                    let key = m.mime_type.clone();
                    g.push(m);
                    proof {
                        lemma_groups_ms_push(groups@, (key, g));
                        lemma_groups_len_push(groups@, (key, g));
                    }
                    groups.push((key, g));
                },
            }
            proof {
                assert(medias@.take(i as int + 1) =~= medias@.take(i as int).push(
                    medias@[i as int]));
                lemma_media_ms_push(medias@.take(i as int), medias@[i as int]);
                assert(groups_media_ms(groups@) =~= media_ms(medias@.take(i as int + 1)));
            }
            i = i + 1;
        }
        proof {
            assert(medias@.take(medias@.len() as int) =~= medias@);
        }
        groups
    }

    /// Processes one medium: dispatched to the provider registered for its
    /// MIME type; one with no registered provider fails.
    fn process_media(
        &self,
        opaque: usize,
        handle: u32,
        flavor: ThumbFlavor,
        media: &MediaRef,
    ) -> (r: Result<(), String>)
        ensures
            mime_lookup(self.mime_map@, media.mime_type@) is None
                ==> (r matches Err(m) && m@ == "no provider for this MIME type"@),
            r is Ok ==> mime_lookup(self.mime_map@, media.mime_type@) is Some,
    {
        match self.lookup(media.mime_type.as_str()) {
            Some(idx) => {
                if idx < self.providers.len() {
                    let job = ThumbJob { handle, flavor, media: media.clone() };
                    self.providers[idx].process(opaque, self.cache_dir.as_str(), job)
                } else {
                    Err(String::from_str("no provider for this MIME type"))
                }
            },
            None => Err(String::from_str("no provider for this MIME type")),
        }
    }

    /// Processes one chunk: each medium goes to its MIME's provider, one
    /// with no provider becomes a failure, and each lands in exactly one of
    /// the two lists.
    fn process_chunk(
        &self,
        handle: u32,
        flavor: ThumbFlavor,
        chunk: Vec<MediaRef>,
        successes: &mut Successes,
        failures: &mut Failures,
    )
        ensures
            media_ms(final(successes)@).add(failure_media_ms(final(failures)@))
                == media_ms(old(successes)@).add(failure_media_ms(old(failures)@)).add(
                    media_ms(chunk@)),
            final(successes)@.len() + final(failures)@.len()
                == old(successes)@.len() + old(failures)@.len() + chunk@.len(),
            old(successes)@.len() <= final(successes)@.len(),
            forall|j: int| 0 <= j < old(successes)@.len()
                ==> final(successes)@[j] == old(successes)@[j],
            forall|j: int| old(successes)@.len() <= j < final(successes)@.len()
                ==> mime_lookup(self.mime_map@, (#[trigger] final(successes)@[j]).mime_type@)
                    is Some,
            old(failures)@.len() <= final(failures)@.len(),
            forall|j: int| 0 <= j < old(failures)@.len()
                ==> final(failures)@[j] == old(failures)@[j],
            forall|j: int| old(failures)@.len() <= j < final(failures)@.len()
                ==> (mime_lookup(self.mime_map@, (#[trigger] final(failures)@[j]).0.mime_type@)
                    is None ==> final(failures)@[j].1@ == "no provider for this MIME type"@),
    {
        broadcast use vstd::multiset::group_multiset_axioms;

        let ghost base = media_ms(old(successes)@).add(failure_media_ms(old(failures)@));
        let mut i: usize = 0;
        proof {
            lemma_media_ms_empty();
            assert(chunk@.take(0) =~= Seq::<MediaRef>::empty());
            assert(media_ms(successes@).add(failure_media_ms(failures@))
                =~= base.add(media_ms(chunk@.take(0))));
        }
        while i < chunk.len()
            invariant
                i <= chunk@.len(),
                media_ms(successes@).add(failure_media_ms(failures@))
                    == base.add(media_ms(chunk@.take(i as int))),
                successes@.len() + failures@.len()
                    == old(successes)@.len() + old(failures)@.len() + i,
                old(successes)@.len() <= successes@.len(),
                forall|j: int| 0 <= j < old(successes)@.len()
                    ==> successes@[j] == old(successes)@[j],
                forall|j: int| old(successes)@.len() <= j < successes@.len()
                    ==> mime_lookup(self.mime_map@, (#[trigger] successes@[j]).mime_type@)
                        is Some,
                old(failures)@.len() <= failures@.len(),
                forall|j: int| 0 <= j < old(failures)@.len()
                    ==> failures@[j] == old(failures)@[j],
                forall|j: int| old(failures)@.len() <= j < failures@.len()
                    ==> (mime_lookup(self.mime_map@, (#[trigger] failures@[j]).0.mime_type@)
                        is None ==> failures@[j].1@ == "no provider for this MIME type"@),
            decreases chunk@.len() - i,
        {
            let media = chunk[i].clone();
            let ghost u = media@;
            let outcome = self.process_media(i, handle, flavor, &media);
            proof {
                assert(u == chunk@[i as int]@);
            }
            match outcome {
                Ok(()) => {
                    proof {
                        lemma_media_ms_push(successes@, media);
                    }
                    successes.push(media);
                    proof {
                        assert(media_ms(successes@).add(failure_media_ms(failures@))
                            =~= base.add(media_ms(chunk@.take(i as int))).insert(u));
                    }
                },
                Err(e) => {
                    proof {
                        lemma_failure_media_ms_push(failures@, (media, e));
                    }
                    failures.push((media, e));
                    proof {
                        assert(media_ms(successes@).add(failure_media_ms(failures@))
                            =~= base.add(media_ms(chunk@.take(i as int))).insert(u));
                    }
                },
            }
            proof {
                assert(chunk@.take(i as int + 1) =~= chunk@.take(i as int).push(
                    chunk@[i as int]));
                lemma_media_ms_push(chunk@.take(i as int), chunk@[i as int]);
                assert(base.add(media_ms(chunk@.take(i as int + 1)))
                    =~= base.add(media_ms(chunk@.take(i as int))).insert(u));
            }
            i = i + 1;
        }
        proof {
            assert(chunk@.take(chunk@.len() as int) =~= chunk@);
        }
    }

    /// Partitions a batch's media by MIME type and splits each group into
    /// chunks of the registry's chunk size: the units of dispatch, which a
    /// caller may process in any order or in parallel. No medium is lost
    /// or duplicated.
    pub fn prepare_chunks(&self, medias: &Vec<MediaRef>) -> (chunks: Vec<Vec<MediaRef>>)
        ensures
            chunks_media_ms(chunks@) == media_ms(medias@),
            chunks_len(chunks@) == medias@.len(),
    {
        broadcast use vstd::multiset::group_multiset_axioms;

        let ghost total = media_ms(medias@);
        let mut groups = self.group_by_mime(medias);
        let mut out: Vec<Vec<MediaRef>> = Vec::new();
        proof {
            assert(chunks_media_ms(out@).add(groups_media_ms(groups@)) =~= total);
        }
        while groups.len() > 0
            invariant
                chunks_media_ms(out@).add(groups_media_ms(groups@)) == total,
                chunks_len(out@) + groups_len(groups@) == medias@.len(),
            decreases groups@.len(),
        {
            proof {
                assert(groups@ =~= groups@.drop_last().push(groups@.last()));
                lemma_groups_ms_push(groups@.drop_last(), groups@.last());
                lemma_groups_len_push(groups@.drop_last(), groups@.last());
            }
            let kv = groups.pop().unwrap();
            let mut chunks = self.chunk_group(kv.1);
            proof {
                assert(chunks_media_ms(out@).add(chunks_media_ms(chunks@)).add(
                    groups_media_ms(groups@)) =~= total);
            }
            while chunks.len() > 0
                invariant
                    chunks_media_ms(out@).add(chunks_media_ms(chunks@)).add(
                        groups_media_ms(groups@)) == total,
                    chunks_len(out@) + chunks_len(chunks@) + groups_len(groups@)
                        == medias@.len(),
                decreases chunks@.len(),
            {
                proof {
                    assert(chunks@ =~= chunks@.drop_last().push(chunks@.last()));
                    lemma_chunks_ms_push(chunks@.drop_last(), chunks@.last());
                    lemma_chunks_len_push(chunks@.drop_last(), chunks@.last());
                }
                let c = chunks.pop().unwrap();
                proof {
                    lemma_chunks_ms_push(out@, c);
                    lemma_chunks_len_push(out@, c);
                }
                out.push(c);
                proof {
                    assert(chunks_media_ms(out@).add(chunks_media_ms(chunks@)).add(
                        groups_media_ms(groups@)) =~= total);
                }
            }
            proof {
                assert(chunks@ =~= Seq::<Vec<MediaRef>>::empty());
                assert(chunks_media_ms(out@).add(groups_media_ms(groups@)) =~= total);
            }
        }
        proof {
            assert(groups@ =~= Seq::<(String, Vec<MediaRef>)>::empty());
            assert(chunks_media_ms(out@) =~= total);
        }
        out
    }

    /// Processes one chunk into fresh result lists: each medium goes to
    /// its MIME's provider and lands in exactly one list, one in the
    /// success list only if its MIME type is mapped, and one whose MIME
    /// type is unmapped in the failure list with the registry's own error.
    pub fn process_chunk_collect(
        &self,
        handle: u32,
        flavor: ThumbFlavor,
        chunk: Vec<MediaRef>,
    ) -> (r: (Successes, Failures))
        ensures
            media_ms(r.0@).add(failure_media_ms(r.1@)) == media_ms(chunk@),
            r.0@.len() + r.1@.len() == chunk@.len(),
            forall|j: int| 0 <= j < r.0@.len()
                ==> mime_lookup(self.mime_map@, (#[trigger] r.0@[j]).mime_type@) is Some,
            forall|j: int| 0 <= j < r.1@.len()
                ==> (mime_lookup(self.mime_map@, (#[trigger] r.1@[j]).0.mime_type@) is None
                    ==> r.1@[j].1@ == "no provider for this MIME type"@),
    {
        broadcast use vstd::multiset::group_multiset_axioms;

        let mut successes: Successes = Vec::new();
        let mut failures: Failures = Vec::new();
        proof {
            lemma_media_ms_empty();
            lemma_failure_media_ms_empty();
        }
        self.process_chunk(handle, flavor, chunk, &mut successes, &mut failures);
        (successes, failures)
    }

    /// Processes one batch: partitions by MIME, chunks each group, runs
    /// every medium through its provider, and merges the outcomes.
    ///
    /// Every medium of the batch appears, with its URI and MIME type, in
    /// exactly one of the two returned lists, whatever the chunk size;
    /// result order is not promised. A medium lands in the success list
    /// only if its MIME type is mapped, so one with no registered provider
    /// becomes a failure, carrying the registry's own error message.
    pub fn process_request(&self, batch: ThumbJobBatch) -> (r: (Successes, Failures))
        ensures
            media_ms(r.0@).add(failure_media_ms(r.1@)) == media_ms(batch.medias@),
            r.0@.len() + r.1@.len() == batch.medias@.len(),
            forall|j: int| 0 <= j < r.0@.len()
                ==> mime_lookup(self.mime_map@, (#[trigger] r.0@[j]).mime_type@) is Some,
            forall|j: int| 0 <= j < r.1@.len()
                ==> (mime_lookup(self.mime_map@, (#[trigger] r.1@[j]).0.mime_type@) is None
                    ==> r.1@[j].1@ == "no provider for this MIME type"@),
    {
        broadcast use vstd::multiset::group_multiset_axioms;

        let ThumbJobBatch { handle, flavor, medias } = batch;
        let ghost total = media_ms(medias@);
        let mut chunks = self.prepare_chunks(&medias);
        let mut successes: Successes = Vec::new();
        let mut failures: Failures = Vec::new();
        proof {
            lemma_media_ms_empty();
            lemma_failure_media_ms_empty();
            assert(media_ms(successes@).add(failure_media_ms(failures@)).add(
                chunks_media_ms(chunks@)) =~= total);
        }
        while chunks.len() > 0
            invariant
                media_ms(successes@).add(failure_media_ms(failures@)).add(chunks_media_ms(chunks@))
                    == total,
                successes@.len() + failures@.len() + chunks_len(chunks@) == medias@.len(),
                forall|j: int| 0 <= j < successes@.len()
                    ==> mime_lookup(self.mime_map@, (#[trigger] successes@[j]).mime_type@)
                        is Some,
                forall|j: int| 0 <= j < failures@.len()
                    ==> (mime_lookup(self.mime_map@, (#[trigger] failures@[j]).0.mime_type@)
                        is None ==> failures@[j].1@ == "no provider for this MIME type"@),
            decreases chunks@.len(),
        {
            proof {
                assert(chunks@ =~= chunks@.drop_last().push(chunks@.last()));
                lemma_chunks_ms_push(chunks@.drop_last(), chunks@.last());
                lemma_chunks_len_push(chunks@.drop_last(), chunks@.last());
            }
            let chunk = chunks.pop().unwrap();
            self.process_chunk(handle, flavor, chunk, &mut successes, &mut failures);
            proof {
                assert(media_ms(successes@).add(failure_media_ms(failures@)).add(
                    chunks_media_ms(chunks@)) =~= total);
            }
        }
        proof {
            assert(chunks@ =~= Seq::<Vec<MediaRef>>::empty());
            assert(media_ms(successes@).add(failure_media_ms(failures@)) =~= total);
        }
        (successes, failures)
    }
}

/// The failure multiset of nothing is empty.
proof fn lemma_failure_media_ms_empty()
    ensures
        failure_media_ms(Seq::<(MediaRef, String)>::empty()) == Multiset::<MediaView>::empty(),
{
    broadcast use vstd::multiset::group_multiset_axioms;

    let fe = failure_views_of(Seq::<(MediaRef, String)>::empty());
    assert(fe =~= Seq::<MediaView>::empty());
    fe.to_multiset_ensures();
    assert(fe.to_multiset() =~= Multiset::<MediaView>::empty()) by {
        assert forall|x: MediaView| fe.to_multiset().count(x) == 0 by {
            if fe.to_multiset().count(x) > 0 {
                assert(fe.contains(x));
            }
        }
    }
}

/// The number of media across a group list.
pub open spec fn groups_len(gs: Seq<(String, Vec<MediaRef>)>) -> nat
    decreases gs.len(),
{
    if gs.len() == 0 {
        0
    } else {
        groups_len(gs.drop_last()) + gs.last().1@.len()
    }
}

proof fn lemma_groups_len_push(gs: Seq<(String, Vec<MediaRef>)>, g: (String, Vec<MediaRef>))
    ensures
        groups_len(gs.push(g)) == groups_len(gs) + g.1@.len(),
{
    assert(gs.push(g).drop_last() =~= gs);
    assert(gs.push(g).last() == g);
}

proof fn lemma_groups_len_remove(gs: Seq<(String, Vec<MediaRef>)>, k: int)
    requires
        0 <= k < gs.len(),
    ensures
        groups_len(gs) == groups_len(gs.remove(k)) + gs[k].1@.len(),
    decreases gs.len(),
{
    if k == gs.len() - 1 {
        assert(gs.remove(k) =~= gs.drop_last());
    } else {
        lemma_groups_len_remove(gs.drop_last(), k);
        assert(gs.remove(k).drop_last() =~= gs.drop_last().remove(k));
        assert(gs.remove(k).last() == gs.last());
        assert(gs.drop_last()[k] == gs[k]);
    }
}

/// The number of media across a chunk list.
pub open spec fn chunks_len(cs: Seq<Vec<MediaRef>>) -> nat
    decreases cs.len(),
{
    if cs.len() == 0 {
        0
    } else {
        chunks_len(cs.drop_last()) + cs.last()@.len()
    }
}

proof fn lemma_chunks_len_push(cs: Seq<Vec<MediaRef>>, c: Vec<MediaRef>)
    ensures
        chunks_len(cs.push(c)) == chunks_len(cs) + c@.len(),
{
    assert(cs.push(c).drop_last() =~= cs);
    assert(cs.push(c).last() == c);
}

/// No MIME key occurs twice in an entry list.
pub open spec fn mime_keys_distinct(es: Seq<(String, usize)>) -> bool {
    forall|k1: int, k2: int| 0 <= k1 < k2 < es.len()
        ==> (#[trigger] es[k1]).0@ != (#[trigger] es[k2]).0@
}

/// A key that looks up to nothing matches no entry.
proof fn lemma_mime_lookup_none_no_key(es: Seq<(String, usize)>, m: Seq<char>)
    requires
        mime_lookup(es, m) is None,
    ensures
        forall|k: int| 0 <= k < es.len() ==> (#[trigger] es[k]).0@ != m,
    decreases es.len(),
{
    if es.len() > 0 {
        lemma_mime_lookup_none_no_key(es.drop_first(), m);
        assert forall|k: int| 0 <= k < es.len() implies (#[trigger] es[k]).0@ != m by {
            if k > 0 {
                assert(es.drop_first()[k - 1] == es[k]);
            }
        }
    }
}

/// Claim list `i` is the first among `claims` to contain `mime`.
pub open spec fn first_claimant(claims: Seq<Seq<Seq<char>>>, mime: Seq<char>, i: int) -> bool {
    &&& 0 <= i < claims.len()
    &&& claims[i].contains(mime)
    &&& forall|j: int| 0 <= j < i ==> !(#[trigger] claims[j]).contains(mime)
}

/// Accumulates providers, each with the MIME types it claims, and
/// configuration; `build` freezes them into a registry, the first
/// registration of a MIME type winning.
pub struct ProviderRegistryBuilder<P: Provider> {
    pub providers: Vec<P>,
    pub claims: Vec<Vec<String>>,
    pub cache_dir: String,
    pub chunk_size: usize,
}

impl<P: Provider> ProviderRegistryBuilder<P> {
    pub fn new(cache_dir: &str) -> (r: Self)
        ensures
            r.providers@.len() == 0,
            r.claims@.len() == 0,
            r.cache_dir@ == cache_dir@,
            r.chunk_size == 2,
    {
        ProviderRegistryBuilder {
            providers: Vec::new(),
            claims: Vec::new(),
            cache_dir: cache_dir.to_owned(),
            chunk_size: 2,
        }
    }

    /// Registers a provider together with the MIME types it claims. The
    /// claim list is taken as a value so that the built map can be pinned
    /// to it.
    pub fn register(&mut self, provider: P, mimes: Vec<String>)
        ensures
            final(self).providers@ == old(self).providers@.push(provider),
            final(self).claims@ == old(self).claims@.push(mimes),
            final(self).cache_dir == old(self).cache_dir,
            final(self).chunk_size == old(self).chunk_size,
    {
        self.providers.push(provider);
        self.claims.push(mimes);
    }

    /// Sets the chunk size groups are split into; zero acts as one.
    pub fn with_chunk_size(&mut self, n: usize)
        ensures
            final(self).chunk_size == n,
            final(self).providers@ == old(self).providers@,
            final(self).claims@ == old(self).claims@,
            final(self).cache_dir == old(self).cache_dir,
    {
        self.chunk_size = n;
    }

    /// Builds the registry: each claimed MIME type is entered into the map
    /// unless an earlier registration already claimed it. The map holds
    /// exactly the claimed types, each once, each bound to its first
    /// claimant, whose index is always a registered provider's.
    pub fn build(self) -> (r: ProviderRegistry<P>)
        requires
            self.claims@.len() == self.providers@.len(),
        ensures
            r.providers@ == self.providers@,
            r.cache_dir == self.cache_dir,
            r.chunk_size == self.chunk_size,
            mime_keys_distinct(r.mime_map@),
            forall|k: int| 0 <= k < r.mime_map@.len()
                ==> (#[trigger] r.mime_map@[k]).1 < r.providers@.len(),
            forall|m: Seq<char>| #![trigger mime_lookup(r.mime_map@, m)]
                (mime_lookup(r.mime_map@, m) is None
                    <==> forall|j: int| 0 <= j < self.claims.deep_view().len()
                        ==> !(#[trigger] self.claims.deep_view()[j]).contains(m)),
            forall|m: Seq<char>| #![trigger mime_lookup(r.mime_map@, m)]
                (mime_lookup(r.mime_map@, m) matches Some(i)
                    ==> first_claimant(self.claims.deep_view(), m, i as int)),
    {
        let ghost cdv = self.claims.deep_view();
        proof {
            lemma_claims_deep_view(self.claims);
        }
        let mut mime_map: Vec<(String, usize)> = Vec::new();
        let mut idx: usize = 0;
        while idx < self.claims.len()
            invariant
                idx <= self.claims@.len(),
                cdv == self.claims.deep_view(),
                cdv.len() == self.claims@.len(),
                forall|ii: int| 0 <= ii < self.claims@.len()
                    ==> (#[trigger] cdv[ii]).len() == self.claims@[ii]@.len(),
                forall|ii: int, jj: int| 0 <= ii < self.claims@.len()
                    && 0 <= jj < self.claims@[ii]@.len()
                    ==> cdv[ii][jj] == #[trigger] self.claims@[ii]@[jj]@,
                forall|k: int| 0 <= k < mime_map@.len()
                    ==> (#[trigger] mime_map@[k]).1 < idx,
                mime_keys_distinct(mime_map@),
                forall|m: Seq<char>| #![trigger mime_lookup(mime_map@, m)]
                    (mime_lookup(mime_map@, m) is None
                        <==> forall|j: int| 0 <= j < idx ==> !(#[trigger] cdv[j]).contains(m)),
                forall|m: Seq<char>| #![trigger mime_lookup(mime_map@, m)]
                    (mime_lookup(mime_map@, m) matches Some(i)
                        ==> first_claimant(cdv.take(idx as int), m, i as int)),
            decreases self.claims@.len() - idx,
        {
            let mimes = &self.claims[idx];
            let mut j: usize = 0;
            while j < mimes.len()
                invariant
                    idx < self.claims@.len(),
                    j <= mimes@.len(),
                    mimes@ == self.claims@[idx as int]@,
                    cdv == self.claims.deep_view(),
                    cdv.len() == self.claims@.len(),
                    cdv[idx as int].len() == mimes@.len(),
                    forall|jj: int| 0 <= jj < mimes@.len()
                        ==> cdv[idx as int][jj] == (#[trigger] mimes@[jj])@,
                    forall|k: int| 0 <= k < mime_map@.len()
                        ==> (#[trigger] mime_map@[k]).1 <= idx,
                    mime_keys_distinct(mime_map@),
                    forall|m: Seq<char>| #![trigger mime_lookup(mime_map@, m)]
                        (mime_lookup(mime_map@, m) is None
                            <==> (forall|jj: int| 0 <= jj < idx
                                    ==> !(#[trigger] cdv[jj]).contains(m))
                                && !cdv[idx as int].take(j as int).contains(m)),
                    forall|m: Seq<char>| #![trigger mime_lookup(mime_map@, m)]
                        (mime_lookup(mime_map@, m) matches Some(i)
                            ==> (first_claimant(cdv.take(idx as int), m, i as int)
                                || (i == idx
                                    && (forall|jj: int| 0 <= jj < idx
                                        ==> !(#[trigger] cdv[jj]).contains(m))
                                    && cdv[idx as int].take(j as int).contains(m)))),
                decreases mimes@.len() - j,
            {
                let ghost before = mime_map@;
                let key = &mimes[j];
                let absent = entries_lookup(&mime_map, key.as_str()).is_none();
                if absent {
                    mime_map.push((key.clone(), idx));
                }
                proof {
                    let jv = cdv[idx as int][j as int];
                    assert(jv == key@);
                    lemma_take_push_contains(cdv[idx as int], j as int);
                    assert(cdv[idx as int].take(j as int + 1)
                        =~= cdv[idx as int].take(j as int).push(jv));
                    if absent {
                        let e = mime_map@.last();
                        assert(mime_map@ == before.push(e));
                        assert(e.0@ == jv && e.1 == idx);
                        lemma_mime_lookup_none_no_key(before, jv);
                        assert forall|k1: int, k2: int| 0 <= k1 < k2 < mime_map@.len()
                            implies (#[trigger] mime_map@[k1]).0@
                                != (#[trigger] mime_map@[k2]).0@ by {
                            if k2 < before.len() as int {
                                assert(mime_map@[k1] == before[k1]);
                                assert(mime_map@[k2] == before[k2]);
                            } else {
                                assert(mime_map@[k1] == before[k1]);
                                assert(before[k1].0@ != jv);
                            }
                        }
                        assert forall|m: Seq<char>| #![trigger mime_lookup(mime_map@, m)]
                            true implies inner_inv_holds(mime_map@, cdv, idx as int,
                                j as int + 1, m) by {
                            lemma_mime_lookup_push(before, e, m);
                            lemma_seq_contains_push(cdv[idx as int].take(j as int), jv, m);
                        }
                    } else {
                        assert forall|m: Seq<char>| #![trigger mime_lookup(mime_map@, m)]
                            true implies inner_inv_holds(mime_map@, cdv, idx as int,
                                j as int + 1, m) by {
                            lemma_seq_contains_push(cdv[idx as int].take(j as int), jv, m);
                            if m == jv {
                                assert(mime_lookup(mime_map@, m) is Some);
                            }
                        }
                    }
                    assert forall|m: Seq<char>| #![trigger mime_lookup(mime_map@, m)]
                        (mime_lookup(mime_map@, m) is None
                            <==> (forall|jj: int| 0 <= jj < idx
                                    ==> !(#[trigger] cdv[jj]).contains(m))
                                && !cdv[idx as int].take(j as int + 1).contains(m)) by {
                        assert(inner_inv_holds(mime_map@, cdv, idx as int, j as int + 1, m));
                    }
                    assert forall|m: Seq<char>| #![trigger mime_lookup(mime_map@, m)]
                        (mime_lookup(mime_map@, m) matches Some(i)
                            ==> (first_claimant(cdv.take(idx as int), m, i as int)
                                || (i == idx
                                    && (forall|jj: int| 0 <= jj < idx
                                        ==> !(#[trigger] cdv[jj]).contains(m))
                                    && cdv[idx as int].take(j as int + 1).contains(m)))) by {
                        assert(inner_inv_holds(mime_map@, cdv, idx as int, j as int + 1, m));
                    }
                }
                j = j + 1;
            }
            proof {
                assert(cdv[idx as int].take(mimes@.len() as int) =~= cdv[idx as int]);
                assert forall|m: Seq<char>| #![trigger mime_lookup(mime_map@, m)]
                    (mime_lookup(mime_map@, m) is None
                        <==> forall|jj: int| 0 <= jj < idx + 1
                            ==> !(#[trigger] cdv[jj]).contains(m)) by {
                    if mime_lookup(mime_map@, m) is None {
                        assert forall|jj: int| 0 <= jj < idx + 1
                            implies !(#[trigger] cdv[jj]).contains(m) by {
                            if jj == idx as int {
                                assert(!cdv[idx as int].contains(m));
                            }
                        }
                    }
                }
                assert forall|m: Seq<char>| #![trigger mime_lookup(mime_map@, m)]
                    (mime_lookup(mime_map@, m) matches Some(i)
                        ==> first_claimant(cdv.take(idx as int + 1), m, i as int)) by {
                    let lk = mime_lookup(mime_map@, m);
                    if lk is Some {
                        let i = lk->0;
                        assert(cdv.take(idx as int + 1).len() == idx + 1);
                        assert forall|q: int| 0 <= q < idx + 1
                            implies cdv.take(idx as int + 1)[q] == cdv[q] by {}
                        if first_claimant(cdv.take(idx as int), m, i as int) {
                            assert(cdv.take(idx as int)[i as int] == cdv[i as int]);
                            assert forall|q: int| 0 <= q < i as int
                                implies !(#[trigger] cdv.take(idx as int + 1)[q]).contains(m)
                                by {
                                assert(cdv.take(idx as int)[q] == cdv[q]);
                            }
                            assert(first_claimant(cdv.take(idx as int + 1), m, i as int));
                        } else {
                            assert(i == idx);
                            assert(cdv[idx as int].contains(m));
                            assert(first_claimant(cdv.take(idx as int + 1), m, i as int));
                        }
                    }
                }
            }
            idx = idx + 1;
        }
        proof {
            assert(cdv.take(cdv.len() as int) =~= cdv);
        }
        ProviderRegistry {
            providers: self.providers,
            mime_map,
            cache_dir: self.cache_dir,
            chunk_size: self.chunk_size,
        }
    }
}

/// The inner build loop's relation between the map, the claim lists fully
/// processed, and the prefix of the current list.
spec fn inner_inv_holds(
    map: Seq<(String, usize)>,
    cdv: Seq<Seq<Seq<char>>>,
    idx: int,
    j: int,
    m: Seq<char>,
) -> bool {
    &&& (mime_lookup(map, m) is None
        <==> (forall|jj: int| 0 <= jj < idx ==> !(#[trigger] cdv[jj]).contains(m))
            && !cdv[idx].take(j).contains(m))
    &&& (mime_lookup(map, m) matches Some(i)
        ==> (first_claimant(cdv.take(idx), m, i as int)
            || (i == idx
                && (forall|jj: int| 0 <= jj < idx ==> !(#[trigger] cdv[jj]).contains(m))
                && cdv[idx].take(j).contains(m))))
}

/// Looking a key up after a push: an existing binding wins, the new entry
/// answers only for its own key.
proof fn lemma_mime_lookup_push(es: Seq<(String, usize)>, e: (String, usize), m: Seq<char>)
    ensures
        mime_lookup(es.push(e), m) == if mime_lookup(es, m) is Some {
            mime_lookup(es, m)
        } else if e.0@ == m {
            Some(e.1)
        } else {
            None::<usize>
        },
    decreases es.len(),
{
    if es.len() == 0 {
        assert(es.push(e)[0] == e);
        assert(es.push(e).drop_first() =~= Seq::<(String, usize)>::empty());
        assert(mime_lookup(Seq::<(String, usize)>::empty(), m) is None);
    } else {
        assert(es.push(e)[0] == es[0]);
        assert(es.push(e).drop_first() =~= es.drop_first().push(e));
        lemma_mime_lookup_push(es.drop_first(), e, m);
    }
}

/// Membership in a sequence extended by one element.
proof fn lemma_seq_contains_push(s: Seq<Seq<char>>, x: Seq<char>, m: Seq<char>)
    ensures
        s.push(x).contains(m) <==> (s.contains(m) || x == m),
{
    if s.contains(m) {
        let w = choose|w: int| 0 <= w < s.len() && s[w] == m;
        assert(s.push(x)[w] == m);
    }
    if x == m {
        assert(s.push(x)[s.len() as int] == m);
    }
    if s.push(x).contains(m) {
        let w = choose|w: int| 0 <= w < s.push(x).len() && s.push(x)[w] == m;
        if w < s.len() {
            assert(s[w] == m);
        }
    }
}

/// A take extended by one position is the take plus that element.
proof fn lemma_take_push_contains(s: Seq<Seq<char>>, j: int)
    requires
        0 <= j < s.len(),
    ensures
        s.take(j + 1) =~= s.take(j).push(s[j]),
{
}

proof fn lemma_claims_deep_view(v: Vec<Vec<String>>)
    ensures
        v.deep_view().len() == v@.len(),
        forall|i: int| 0 <= i < v@.len()
            ==> (#[trigger] v.deep_view()[i]).len() == v@[i]@.len(),
        forall|i: int, j: int| 0 <= i < v@.len() && 0 <= j < v@[i]@.len()
            ==> v.deep_view()[i][j] == (#[trigger] v@[i]@[j])@,
{
}

fn entries_lookup(entries: &Vec<(String, usize)>, mime: &str) -> (r: Option<usize>)
    ensures
        r == mime_lookup(entries@, mime@),
{
    let mut k: usize = 0;
    proof {
        assert(entries@.skip(0) =~= entries@);
    }
    while k < entries.len()
        invariant
            k <= entries@.len(),
            mime_lookup(entries@, mime@) == mime_lookup(entries@.skip(k as int), mime@),
        decreases entries@.len() - k,
    {
        proof {
            assert(entries@.skip(k as int)[0] == entries@[k as int]);
            assert(entries@.skip(k as int).drop_first() =~= entries@.skip(k as int + 1));
        }
        if str_eq(entries[k].0.as_str(), mime) {
            return Some(entries[k].1);
        }
        k = k + 1;
    }
    proof {
        assert(entries@.skip(entries@.len() as int) =~= Seq::<(String, usize)>::empty());
    }
    None
}

} // verus!
