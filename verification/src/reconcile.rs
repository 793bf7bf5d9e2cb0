//! The reconciler: matches raw similar-channel candidates against the store
//! snapshot and splits them into records that are already complete and
//! records that still need enrichment.
//!
//! A known, complete record has its volatile fields refreshed (title, photo,
//! subscriber count recomputed from the fresh HTML snippet) and is written
//! back at once. A known but incomplete record is refreshed the same way and
//! queued for enrichment, its classified fields preserved verbatim. An
//! unknown candidate becomes a fresh work item — unless it lacks a username,
//! which rejects that single candidate and nothing else.

use vstd::prelude::*;

use crate::records::ChannelData;
use crate::records::Database;
use crate::records::clone_opt_string;
use crate::store::find_index_by_id;
use crate::store::has_id;
use crate::store::idx_by_id;
use crate::store::upserted;
use crate::subscribers::extract_subscribers;
use crate::subscribers::subscribers_of;

verus! {

/// A raw similar-channel candidate as the discovery API reports it: the
/// HTML snippet embeds the subscriber count, and the username may be absent.
#[derive(Debug)]
pub struct SimilarChannelCandidate {
    pub id: i64,
    pub title: Option<String>,
    pub photo: Option<String>,
    pub username: Option<String>,
    pub html_snippet: Option<String>,
}

impl Clone for SimilarChannelCandidate {
    fn clone(&self) -> (r: Self)
        ensures
            r == *self,
    {
        SimilarChannelCandidate {
            id: self.id,
            title: clone_opt_string(&self.title),
            photo: clone_opt_string(&self.photo),
            username: clone_opt_string(&self.username),
            html_snippet: clone_opt_string(&self.html_snippet),
        }
    }
}

/// The structured error a single candidate is rejected with.
#[derive(Debug, PartialEq, Eq, Structural)]
pub enum ReconcileError {
    /// The candidate is not in the store and carries no username, so the
    /// pipeline has no stable key to file it under; its id is reported.
    MissingUsername(i64),
}

/// The subscriber count carried by a candidate's HTML snippet, if any.
pub open spec fn cand_subs(cand: SimilarChannelCandidate) -> Option<i64> {
    match cand.html_snippet {
        Some(h) => subscribers_of(h@),
        None => None,
    }
}

/// A known record with its volatile fields refreshed from the candidate:
/// title, photo and subscriber count are replaced, everything else —
/// including the classified fields — stays.
pub open spec fn refreshed_record(existing: ChannelData, cand: SimilarChannelCandidate) -> ChannelData {
    ChannelData {
        title: cand.title,
        photo_element: cand.photo,
        subscribers: cand_subs(cand),
        ..existing
    }
}

/// The work item built for an unknown candidate: nothing classified yet.
/// Meaningful only when the candidate carries a username.
pub open spec fn fresh_record(cand: SimilarChannelCandidate) -> ChannelData {
    ChannelData {
        id: cand.id,
        title: cand.title,
        username: cand.username->0,
        photo_element: cand.photo,
        category: None,
        description: None,
        subscribers: cand_subs(cand),
        geo: None,
    }
}

/// Whether the store snapshot already holds this candidate's id.
pub open spec fn cand_known(s: Seq<ChannelData>, cand: SimilarChannelCandidate) -> bool {
    has_id(s, cand.id)
}

/// The record a candidate turns into: the refreshed known record, or a
/// fresh work item.
pub open spec fn cand_record(s: Seq<ChannelData>, cand: SimilarChannelCandidate) -> ChannelData {
    if cand_known(s, cand) {
        refreshed_record(s[idx_by_id(s, cand.id)], cand)
    } else {
        fresh_record(cand)
    }
}

/// A candidate is done when it refreshes a record that is already complete.
pub open spec fn cand_done(s: Seq<ChannelData>, cand: SimilarChannelCandidate) -> bool {
    cand_known(s, cand) && cand_record(s, cand).is_complete()
}

/// A candidate needs enrichment when its record is incomplete — known or
/// fresh — and it can be keyed.
pub open spec fn cand_pending(s: Seq<ChannelData>, cand: SimilarChannelCandidate) -> bool {
    (cand_known(s, cand) && !cand_record(s, cand).is_complete()) || (!cand_known(s, cand)
        && cand.username is Some)
}

/// A candidate is rejected only when it is unknown and carries no username.
pub open spec fn cand_rejected(s: Seq<ChannelData>, cand: SimilarChannelCandidate) -> bool {
    !cand_known(s, cand) && cand.username is None
}

/// The records of the done candidates, in candidate order.
pub open spec fn done_list(s: Seq<ChannelData>, cands: Seq<SimilarChannelCandidate>) -> Seq<
    ChannelData,
>
    decreases cands.len(),
{
    if cands.len() == 0 {
        Seq::empty()
    } else {
        let rest = done_list(s, cands.drop_last());
        if cand_done(s, cands.last()) {
            rest.push(cand_record(s, cands.last()))
        } else {
            rest
        }
    }
}

/// The records of the candidates that need enrichment, in candidate order.
pub open spec fn pending_list(s: Seq<ChannelData>, cands: Seq<SimilarChannelCandidate>) -> Seq<
    ChannelData,
>
    decreases cands.len(),
{
    if cands.len() == 0 {
        Seq::empty()
    } else {
        let rest = pending_list(s, cands.drop_last());
        if cand_pending(s, cands.last()) {
            rest.push(cand_record(s, cands.last()))
        } else {
            rest
        }
    }
}

/// The rejections, in candidate order.
pub open spec fn rejected_list(s: Seq<ChannelData>, cands: Seq<SimilarChannelCandidate>) -> Seq<
    ReconcileError,
>
    decreases cands.len(),
{
    if cands.len() == 0 {
        Seq::empty()
    } else {
        let rest = rejected_list(s, cands.drop_last());
        if cand_rejected(s, cands.last()) {
            rest.push(ReconcileError::MissingUsername(cands.last().id))
        } else {
            rest
        }
    }
}

/// The store contents after upserting the given records in order.
pub open spec fn store_after(s0: Seq<ChannelData>, recs: Seq<ChannelData>) -> Seq<ChannelData>
    decreases recs.len(),
{
    if recs.len() == 0 {
        s0
    } else {
        upserted(store_after(s0, recs.drop_last()), recs.last())
    }
}

/// Reconciliation loses no candidate: each one lands in exactly one of the
/// done, pending and rejected lists.
pub proof fn lemma_reconcile_partition(s: Seq<ChannelData>, cands: Seq<SimilarChannelCandidate>)
    ensures
        done_list(s, cands).len() + pending_list(s, cands).len() + rejected_list(s, cands).len()
            == cands.len(),
    decreases cands.len(),
{
    if cands.len() > 0 {
        lemma_reconcile_partition(s, cands.drop_last());
    }
}

/// Refreshing a known record touches only the volatile fields: what was
/// classified — category, description, geo — reads exactly as stored, so a
/// refreshed record is complete precisely when the stored one is.
pub proof fn lemma_refresh_preserves_classified(
    existing: ChannelData,
    cand: SimilarChannelCandidate,
)
    ensures
        refreshed_record(existing, cand).id == existing.id,
        refreshed_record(existing, cand).username == existing.username,
        refreshed_record(existing, cand).category == existing.category,
        refreshed_record(existing, cand).description == existing.description,
        refreshed_record(existing, cand).geo == existing.geo,
        refreshed_record(existing, cand).is_complete() == existing.is_complete(),
{
}

/// A second pass is free: when the store already knows every candidate and
/// every stored record is complete, reconciliation queues no work and
/// rejects nothing — every candidate is done at once, as the refresh of
/// its stored record.
pub proof fn lemma_second_pass_no_work(s: Seq<ChannelData>, cands: Seq<SimilarChannelCandidate>)
    requires
        forall|j: int| 0 <= j < s.len() ==> (#[trigger] s[j]).is_complete(),
        forall|i: int| 0 <= i < cands.len() ==> cand_known(s, #[trigger] cands[i]),
    ensures
        pending_list(s, cands) == Seq::<ChannelData>::empty(),
        rejected_list(s, cands) == Seq::<ReconcileError>::empty(),
        done_list(s, cands).len() == cands.len(),
        forall|i: int|
            0 <= i < cands.len() ==> done_list(s, cands)[i] == cand_record(s, #[trigger] cands[i]),
    decreases cands.len(),
{
    if cands.len() > 0 {
        lemma_second_pass_no_work(s, cands.drop_last());
        let last = cands.last();
        assert(cand_known(s, last));
        crate::store::lemma_idx_by_id(s, last.id);
        assert(s[idx_by_id(s, last.id)].is_complete());
        assert(cand_done(s, last));
        assert(forall|i: int|
            0 <= i < cands.len() - 1 ==> #[trigger] cands[i] == cands.drop_last()[i]);
    }
}

/// What reconciliation produced: refreshed complete records (already written
/// back), work items for enrichment, and per-candidate rejections.
#[derive(Debug)]
pub struct ReconcileOutcome {
    pub done: Vec<ChannelData>,
    pub pending: Vec<ChannelData>,
    pub rejected: Vec<ReconcileError>,
}

/// Matches every candidate against the store snapshot taken on entry:
/// complete records are refreshed and upserted immediately, incomplete and
/// unknown ones become work items, and a candidate without a key is
/// rejected alone — the rest of the batch goes on.
pub fn reconcile_candidates(db: &mut Database, candidates: &Vec<SimilarChannelCandidate>) -> (r:
    ReconcileOutcome)
    ensures
        r.done@ == done_list(old(db).channels@, candidates@),
        r.pending@ == pending_list(old(db).channels@, candidates@),
        r.rejected@ == rejected_list(old(db).channels@, candidates@),
        final(db).channels@ == store_after(old(db).channels@, r.done@),
{
    let snapshot = db.channels.clone();
    proof {
        assert(snapshot@ =~= db.channels@);
    }
    let mut done: Vec<ChannelData> = Vec::new();
    let mut pending: Vec<ChannelData> = Vec::new();
    let mut rejected: Vec<ReconcileError> = Vec::new();
    let n = candidates.len();
    let mut i: usize = 0;
    while i < n
        invariant
            n == candidates@.len(),
            i <= n,
            snapshot@ == old(db).channels@,
            done@ == done_list(snapshot@, candidates@.subrange(0, i as int)),
            pending@ == pending_list(snapshot@, candidates@.subrange(0, i as int)),
            rejected@ == rejected_list(snapshot@, candidates@.subrange(0, i as int)),
            db.channels@ == store_after(snapshot@, done@),
        decreases n - i,
    {
        let cand = candidates[i].clone();
        let ghost gcand = cand;
        proof {
            let pre = candidates@.subrange(0, i as int);
            let cur = candidates@.subrange(0, i + 1 as int);
            assert(cur.drop_last() =~= pre);
            assert(cur.last() == candidates@[i as int]);
        }
        let subs: Option<i64> = match &cand.html_snippet {
            Some(h) => extract_subscribers(h.as_str()),
            None => None,
        };
        proof {
            assert(subs == cand_subs(gcand));
        }
        let SimilarChannelCandidate { id, title, photo, username, html_snippet: _ } = cand;
        match find_index_by_id(&snapshot, id) {
            Some(idx) => {
                let mut updated = snapshot[idx].clone();
                updated.title = title;
                updated.photo_element = photo;
                updated.subscribers = subs;
                proof {
                    assert(updated == cand_record(snapshot@, gcand));
                }
                if updated.complete() {
                    db.add_or_update_channel(updated.clone());
                    proof {
                        assert(done@.push(updated).drop_last() =~= done@);
                    }
                    done.push(updated);
                } else {
                    pending.push(updated);
                }
            },
            None => {
                match username {
                    Some(u) => {
                        let rec = ChannelData {
                            id,
                            title,
                            username: u,
                            photo_element: photo,
                            category: None,
                            description: None,
                            subscribers: subs,
                            geo: None,
                        };
                        proof {
                            assert(rec == cand_record(snapshot@, gcand));
                        }
                        pending.push(rec);
                    },
                    None => {
                        rejected.push(ReconcileError::MissingUsername(id));
                    },
                }
            },
        }
        i += 1;
    }
    proof {
        assert(candidates@.subrange(0, n as int) =~= candidates@);
    }
    ReconcileOutcome { done, pending, rejected }
}

} // verus!
