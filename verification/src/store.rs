//! Per-speaker accumulation of sub-frames. A speaker's collection grows
//! until it reaches the batch threshold; the filled batch is then drained
//! as a unit and the collection starts again from empty, so a speaker is
//! never stalled.
use std::collections::HashMap;
use vstd::prelude::*;

use crate::protocol::views_of;
use crate::protocol::SubFrame;
use crate::BATCH_THRESHOLD;
use crate::SUBFRAME_SIZE;

verus! {

broadcast use vstd::std_specs::hash::group_hash_axioms;

/// The sub-frames a store holds for `speaker`; a key never seen holds none.
pub open spec fn store_entry(m: Map<u64, Seq<Seq<u8>>>, speaker: u64) -> Seq<Seq<u8>> {
    if m.contains_key(speaker) {
        m[speaker]
    } else {
        Seq::empty()
    }
}

/// Whether appending one more sub-frame for `speaker` fills its batch.
pub open spec fn fills_batch(m: Map<u64, Seq<Seq<u8>>>, speaker: u64) -> bool {
    store_entry(m, speaker).len() + 1 == BATCH_THRESHOLD
}

/// The store after one sub-frame is appended for `speaker`: a batch that
/// fills is drained whole, leaving that speaker's collection empty.
pub open spec fn appended_store(m: Map<u64, Seq<Seq<u8>>>, speaker: u64, frame: Seq<u8>) -> Map<
    u64,
    Seq<Seq<u8>>,
> {
    if fills_batch(m, speaker) {
        m.insert(speaker, Seq::empty())
    } else {
        m.insert(speaker, store_entry(m, speaker).push(frame))
    }
}

/// A collection below the threshold, made of fixed-size sub-frames.
pub open spec fn entry_wf(s: Seq<Seq<u8>>) -> bool {
    &&& s.len() < BATCH_THRESHOLD
    &&& forall|i: int| 0 <= i < s.len() ==> (#[trigger] s[i]).len() == SUBFRAME_SIZE
}

/// The batches of sub-frames held by a run of flushed batches.
pub open spec fn batch_views(batches: Seq<Vec<SubFrame>>) -> Seq<Seq<Seq<u8>>> {
    batches.map_values(|b: Vec<SubFrame>| views_of(b@))
}

/// The store and the batches it flushed after a run of sub-frames for
/// one speaker is appended in order.
pub open spec fn ingested(m: Map<u64, Seq<Seq<u8>>>, speaker: u64, frames: Seq<Seq<u8>>) -> (
    Map<u64, Seq<Seq<u8>>>,
    Seq<Seq<Seq<u8>>>,
)
    decreases frames.len(),
{
    if frames.len() == 0 {
        (m, Seq::empty())
    } else {
        let flushed = if fills_batch(m, speaker) {
            seq![store_entry(m, speaker).push(frames[0])]
        } else {
            Seq::empty()
        };
        let step = ingested(appended_store(m, speaker, frames[0]), speaker, frames.skip(1));
        (step.0, flushed + step.1)
    }
}

/// Law: a speaker's collection flushes exactly one batch per
/// threshold-many sub-frames appended, and goes on accepting: after any
/// run of appends it holds exactly the remainder below the threshold,
/// so it is never stalled.
pub proof fn lemma_flush_cadence(m: Map<u64, Seq<Seq<u8>>>, speaker: u64, frames: Seq<Seq<u8>>)
    requires
        store_entry(m, speaker).len() < BATCH_THRESHOLD,
    ensures
        ingested(m, speaker, frames).1.len() == (store_entry(m, speaker).len() + frames.len())
            / (BATCH_THRESHOLD as nat),
        store_entry(ingested(m, speaker, frames).0, speaker).len() == (store_entry(
            m,
            speaker,
        ).len() + frames.len()) % (BATCH_THRESHOLD as nat),
    decreases frames.len(),
{
    if frames.len() > 0 {
        lemma_flush_cadence(appended_store(m, speaker, frames[0]), speaker, frames.skip(1));
    }
}

/// The per-speaker collections: a mapping from speaker session key to
/// the sub-frames gathered since that speaker's last flushed batch.
pub struct CollectionStore {
    frames: HashMap<u64, Vec<SubFrame>>,
}

impl View for CollectionStore {
    type V = Map<u64, Seq<Seq<u8>>>;

    closed spec fn view(&self) -> Map<u64, Seq<Seq<u8>>> {
        self.frames@.map_values(|v: Vec<SubFrame>| views_of(v@))
    }
}

impl CollectionStore {
    /// Every collection is strictly below the batch threshold (a filled
    /// one is drained at once) and holds only fixed-size sub-frames.
    pub open spec fn wf(&self) -> bool {
        forall|k: u64| self@.contains_key(k) ==> entry_wf(#[trigger] self@[k])
    }

    /// A store with no speaker collections yet.
    pub fn new() -> (s: CollectionStore)
        ensures
            s@ == Map::<u64, Seq<Seq<u8>>>::empty(),
            s.wf(),
    {
        let s = CollectionStore { frames: HashMap::new() };
        proof {
            assert(s@ =~= Map::<u64, Seq<Seq<u8>>>::empty());
        }
        s
    }

    /// Appends one sub-frame for `speaker`. When the sub-frame fills the
    /// speaker's batch, the whole batch is handed back and the speaker's
    /// collection is reset to empty; otherwise the sub-frame is kept.
    pub fn append(&mut self, speaker: u64, frame: SubFrame) -> (flushed: Option<Vec<SubFrame>>)
        requires
            old(self).wf(),
            frame.wf(),
        ensures
            final(self).wf(),
            final(self)@ == appended_store(old(self)@, speaker, frame@),
            match flushed {
                Some(batch) => {
                    &&& fills_batch(old(self)@, speaker)
                    &&& views_of(batch@) == store_entry(old(self)@, speaker).push(frame@)
                    &&& batch@.len() == BATCH_THRESHOLD
                    &&& forall|i: int| 0 <= i < batch@.len() ==> (#[trigger] batch@[i]).wf()
                },
                None => !fills_batch(old(self)@, speaker),
            },
    {
        let ghost prior = self@;
        let mut collected: Vec<SubFrame> = match self.frames.remove(&speaker) {
            Some(v) => v,
            None => Vec::new(),
        };
        proof {
            assert(views_of(collected@) =~= store_entry(prior, speaker));
        }
        let ghost gathered = collected@;
        collected.push(frame);
        proof {
            assert(views_of(collected@) =~= views_of(gathered).push(frame@));
        }
        if collected.len() == BATCH_THRESHOLD {
            self.frames.insert(speaker, Vec::new());
            proof {
                assert(views_of(Seq::<SubFrame>::empty()) =~= Seq::<Seq<u8>>::empty());
                assert(self@ =~= appended_store(prior, speaker, frame@));
                assert forall|i: int| 0 <= i < collected@.len() implies (
                #[trigger] collected@[i]).wf() by {
                    assert(views_of(collected@)[i] == collected@[i]@);
                    if i < collected@.len() - 1 {
                        assert(views_of(collected@)[i] == store_entry(prior, speaker)[i]);
                    }
                }
            }
            Some(collected)
        } else {
            self.frames.insert(speaker, collected);
            proof {
                assert(self@ =~= appended_store(prior, speaker, frame@));
            }
            None
        }
    }

    /// Appends a run of sub-frames for `speaker`, in order, handing back
    /// every batch that filled along the way.
    pub fn append_all(&mut self, speaker: u64, frames: Vec<SubFrame>) -> (batches: Vec<
        Vec<SubFrame>,
    >)
        requires
            old(self).wf(),
            forall|i: int| 0 <= i < frames@.len() ==> (#[trigger] frames@[i]).wf(),
        ensures
            final(self).wf(),
            final(self)@ == ingested(old(self)@, speaker, views_of(frames@)).0,
            batch_views(batches@) == ingested(old(self)@, speaker, views_of(frames@)).1,
            forall|i: int|
                0 <= i < batches@.len() ==> (#[trigger] batches@[i])@.len() == BATCH_THRESHOLD,
            forall|i: int, j: int|
                0 <= i < batches@.len() && 0 <= j < (#[trigger] batches@[i])@.len() ==> (
                #[trigger] batches@[i]@[j]).wf(),
    {
        let ghost m0 = self@;
        let ghost vs0 = views_of(frames@);
        let mut batches: Vec<Vec<SubFrame>> = Vec::new();
        let mut rest = frames;
        proof {
            assert(batch_views(batches@) =~= Seq::<Seq<Seq<u8>>>::empty());
            assert(batch_views(batches@) + ingested(self@, speaker, views_of(rest@)).1 =~= ingested(
                m0,
                speaker,
                vs0,
            ).1);
        }
        while rest.len() > 0
            invariant
                self.wf(),
                forall|i: int| 0 <= i < rest@.len() ==> (#[trigger] rest@[i]).wf(),
                ingested(self@, speaker, views_of(rest@)).0 == ingested(m0, speaker, vs0).0,
                batch_views(batches@) + ingested(self@, speaker, views_of(rest@)).1 == ingested(
                    m0,
                    speaker,
                    vs0,
                ).1,
                forall|i: int|
                    0 <= i < batches@.len() ==> (#[trigger] batches@[i])@.len() == BATCH_THRESHOLD,
                forall|i: int, j: int|
                    0 <= i < batches@.len() && 0 <= j < (#[trigger] batches@[i])@.len() ==> (
                    #[trigger] batches@[i]@[j]).wf(),
            decreases rest.len(),
        {
            let ghost m_before = self@;
            let ghost rest_before = rest@;
            let first = rest.remove(0);
            proof {
                assert(views_of(rest@) =~= views_of(rest_before).skip(1));
                assert(views_of(rest_before)[0] == first@);
            }
            let flushed = self.append(speaker, first);
            match flushed {
                Some(batch) => {
                    let ghost batches_before = batches@;
                    batches.push(batch);
                    proof {
                        assert(batch_views(batches@) =~= batch_views(batches_before) + seq![
                            views_of(batch@)
                        ]);
                        assert(batch_views(batches_before) + (seq![views_of(batch@)] + ingested(
                            self@,
                            speaker,
                            views_of(rest@),
                        ).1) =~= (batch_views(batches_before) + seq![views_of(batch@)]) + ingested(
                            self@,
                            speaker,
                            views_of(rest@),
                        ).1);
                    }
                },
                None => {
                    proof {
                        assert(ingested(m_before, speaker, views_of(rest_before)).1 =~= ingested(
                            self@,
                            speaker,
                            views_of(rest@),
                        ).1);
                    }
                },
            }
        }
        proof {
            assert(views_of(rest@).len() == 0);
            assert(batch_views(batches@) + ingested(self@, speaker, views_of(rest@)).1
                =~= batch_views(batches@));
        }
        batches
    }
}

} // verus!
