use vstd::prelude::*;
use crate::chronicle::bounded_push;

verus! {

/// Most wake patches kept; beyond it the oldest are dropped.
pub const MAX_VISIBLE_WAKE_PATCHES: usize = 12000;
/// Frames an emitter survives without being sampled.
pub const WAKE_EMITTER_IDLE_FRAMES: u64 = 180;

/// Where the wake of one section of one cell was last anchored, and the
/// frame in which that section was last sampled.
pub struct WakeEmitter<A> {
    pub cell_id: u64,
    pub section: u8,
    pub anchor: A,
    pub last_seen_frame: u64,
}

/// The wake emitters of the cells and the wake patches they left, newest
/// last, with the current frame number.
pub struct CellWakeTrails<A, P> {
    pub emitters: Vec<WakeEmitter<A>>,
    pub patches: Vec<P>,
    pub frame: u64,
}

/// Each cell section has at most one emitter.
pub open spec fn distinct_emitters<A>(emitters: Seq<WakeEmitter<A>>) -> bool {
    forall|i: int, j: int| 0 <= i < emitters.len() && 0 <= j < emitters.len() && i != j
        ==> (#[trigger] emitters[i].cell_id, emitters[i].section) != (#[trigger] emitters[j].cell_id, emitters[j].section)
}

/// The emitters sampled within the idle limit before `frame`, in order.
pub open spec fn live_emitters<A>(emitters: Seq<WakeEmitter<A>>, frame: u64) -> Seq<WakeEmitter<A>>
    decreases emitters.len(),
{
    if emitters.len() == 0 {
        Seq::empty()
    } else {
        let oldest = if frame < WAKE_EMITTER_IDLE_FRAMES { 0 } else { frame - WAKE_EMITTER_IDLE_FRAMES };
        let rest = live_emitters(emitters.drop_last(), frame);
        if emitters.last().last_seen_frame >= oldest { rest.push(emitters.last()) } else { rest }
    }
}

/// Index of the emitter of a cell section, if it has one.
pub open spec fn emitter_position<A>(emitters: Seq<WakeEmitter<A>>, cell_id: u64, section: u8) -> Option<int>
    decreases emitters.len(),
{
    if emitters.len() == 0 {
        None
    } else if emitters.last().cell_id == cell_id && emitters.last().section == section {
        Some(emitters.len() - 1)
    } else {
        emitter_position(emitters.drop_last(), cell_id, section)
    }
}

proof fn lemma_live_emitters_subset<A>(emitters: Seq<WakeEmitter<A>>, frame: u64)
    ensures
        live_emitters(emitters, frame).len() <= emitters.len(),
        forall|k: int| 0 <= k < live_emitters(emitters, frame).len() ==> exists|i: int| 0 <= i < emitters.len()
            && #[trigger] live_emitters(emitters, frame)[k] == emitters[i],
        distinct_emitters(emitters) ==> distinct_emitters(live_emitters(emitters, frame)),
    decreases emitters.len(),
{
    if emitters.len() > 0 {
        let d = emitters.drop_last();
        lemma_live_emitters_subset(d, frame);
        let l = live_emitters(emitters, frame);
        let ld = live_emitters(d, frame);
        assert forall|k: int| 0 <= k < l.len() implies exists|i: int| 0 <= i < emitters.len() && #[trigger] l[k] == emitters[i] by {
            if k < ld.len() {
                assert(l[k] == ld[k]);
                let i = choose|i: int| 0 <= i < d.len() && ld[k] == d[i];
                assert(d[i] == emitters[i]);
            } else {
                assert(l[k] == emitters[emitters.len() - 1]);
            }
        }
        if distinct_emitters(emitters) {
            assert(distinct_emitters(d)) by {
                assert forall|i: int, j: int| 0 <= i < d.len() && 0 <= j < d.len() && i != j
                    implies (#[trigger] d[i].cell_id, d[i].section) != (#[trigger] d[j].cell_id, d[j].section) by {
                    assert(d[i] == emitters[i] && d[j] == emitters[j]);
                }
            }
            assert forall|a: int, b: int| 0 <= a < l.len() && 0 <= b < l.len() && a != b
                implies (#[trigger] l[a].cell_id, l[a].section) != (#[trigger] l[b].cell_id, l[b].section) by {
                if a < ld.len() && b < ld.len() {
                    assert(l[a] == ld[a] && l[b] == ld[b]);
                } else {
                    let (x, y) = if a < ld.len() { (a, b) } else { (b, a) };
                    assert(l[x] == ld[x]);
                    let i = choose|i: int| 0 <= i < d.len() && ld[x] == d[i];
                    assert(d[i] == emitters[i]);
                    assert(l[y] == emitters[emitters.len() - 1]);
                }
            }
        }
    }
}

impl<A: Copy, P: Copy> CellWakeTrails<A, P> {
    /// Every cell section has at most one emitter and the patches stay
    /// within their limit.
    pub open spec fn inv(&self) -> bool {
        &&& distinct_emitters(self.emitters@)
        &&& self.patches.len() <= MAX_VISIBLE_WAKE_PATCHES
    }

    /// No emitters, no patches, frame 0.
    pub fn new() -> (trails: Self)
        ensures
            trails.emitters@.len() == 0,
            trails.patches@.len() == 0,
            trails.frame == 0,
            trails.inv(),
    {
        CellWakeTrails { emitters: Vec::new(), patches: Vec::new(), frame: 0 }
    }

    /// Starts a frame: advances the frame number (wrapping) and forgets the
    /// emitters not sampled during the last 180 frames. Patches age by
    /// time, which the caller applies.
    pub fn begin_frame(&mut self)
        requires
            old(self).inv(),
        ensures
            final(self).frame == (if old(self).frame == u64::MAX { 0 } else { (old(self).frame + 1) as u64 }),
            final(self).emitters@ == live_emitters(old(self).emitters@, final(self).frame),
            final(self).patches@ == old(self).patches@,
            final(self).inv(),
    {
        self.frame = self.frame.wrapping_add(1);
        let oldest = self.frame.saturating_sub(WAKE_EMITTER_IDLE_FRAMES);
        let ghost all = self.emitters@;
        let mut kept: Vec<WakeEmitter<A>> = Vec::new();
        let mut i: usize = 0;
        while i < self.emitters.len()
            invariant
                i <= self.emitters.len(),
                all == self.emitters@,
                self.patches@ == old(self).patches@,
                self.patches.len() <= MAX_VISIBLE_WAKE_PATCHES,
                distinct_emitters(all),
                oldest == (if self.frame < WAKE_EMITTER_IDLE_FRAMES { 0 } else { self.frame - WAKE_EMITTER_IDLE_FRAMES }),
                kept@ == live_emitters(all.take(i as int), self.frame),
            decreases self.emitters.len() - i,
        {
            assert(all.take(i + 1).drop_last() =~= all.take(i as int));
            let e = &self.emitters[i];
            if e.last_seen_frame >= oldest {
                kept.push(WakeEmitter { cell_id: e.cell_id, section: e.section, anchor: e.anchor, last_seen_frame: e.last_seen_frame });
            }
            i = i + 1;
        }
        assert(all.take(all.len() as int) =~= all);
        proof {
            lemma_live_emitters_subset(all, self.frame);
        }
        self.emitters = kept;
    }

    /// The emitter of a cell section for this frame: an existing one keeps
    /// its anchor, a new one starts at `anchor`; either way it is marked as
    /// seen now. Returns its index.
    pub fn emitter_slot(&mut self, cell_id: u64, section: u8, anchor: A) -> (index: usize)
        requires
            old(self).inv(),
        ensures
            final(self).inv(),
            final(self).frame == old(self).frame,
            final(self).patches@ == old(self).patches@,
            index < final(self).emitters.len(),
            match emitter_position(old(self).emitters@, cell_id, section) {
                Some(p) => index == p && final(self).emitters@ == old(self).emitters@.update(p,
                    WakeEmitter { last_seen_frame: old(self).frame, ..old(self).emitters@[p] }),
                None => index == old(self).emitters.len() && final(self).emitters@ == old(self).emitters@.push(
                    WakeEmitter { cell_id: cell_id, section: section, anchor: anchor, last_seen_frame: old(self).frame }),
            },
    {
        let ghost all = self.emitters@;
        let mut i = self.emitters.len();
        assert(all.take(i as int) =~= all);
        while i > 0
            invariant
                i <= self.emitters.len(),
                all == self.emitters@,
                all == old(self).emitters@,
                self.frame == old(self).frame,
                self.patches@ == old(self).patches@,
                self.inv(),
                emitter_position(all, cell_id, section) == emitter_position(all.take(i as int), cell_id, section),
                forall|k: int| i <= k < all.len() ==> !(#[trigger] all[k].cell_id == cell_id && all[k].section == section),
            decreases i,
        {
            assert(all.take(i as int).drop_last() =~= all.take(i - 1));
            let e = &self.emitters[i - 1];
            if e.cell_id == cell_id && e.section == section {
                assert(all.take(i as int).last() == e);
                assert(emitter_position(all, cell_id, section) == Some(i - 1));
                let updated = WakeEmitter { cell_id: e.cell_id, section: e.section, anchor: e.anchor, last_seen_frame: self.frame };
                self.emitters.set(i - 1, updated);
                assert(self.emitters@ == all.update(i - 1, WakeEmitter { last_seen_frame: old(self).frame, ..all[i - 1] }));
                proof {
                    assert forall|a: int, b: int| 0 <= a < self.emitters.len() && 0 <= b < self.emitters.len() && a != b
                        implies (#[trigger] self.emitters@[a].cell_id, self.emitters@[a].section)
                            != (#[trigger] self.emitters@[b].cell_id, self.emitters@[b].section) by {
                        assert(all[a].cell_id == self.emitters@[a].cell_id && all[a].section == self.emitters@[a].section);
                        assert(all[b].cell_id == self.emitters@[b].cell_id && all[b].section == self.emitters@[b].section);
                    }
                }
                return i - 1;
            }
            i = i - 1;
        }
        self.emitters.push(WakeEmitter { cell_id, section, anchor, last_seen_frame: self.frame });
        proof {
            assert forall|a: int, b: int| 0 <= a < self.emitters.len() && 0 <= b < self.emitters.len() && a != b
                implies (#[trigger] self.emitters@[a].cell_id, self.emitters@[a].section)
                    != (#[trigger] self.emitters@[b].cell_id, self.emitters@[b].section) by {
                if a < all.len() && b < all.len() {
                    assert(self.emitters@[a] == all[a] && self.emitters@[b] == all[b]);
                } else if a < all.len() {
                    assert(self.emitters@[a] == all[a]);
                } else {
                    assert(self.emitters@[b] == all[b]);
                }
            }
        }
        self.emitters.len() - 1
    }

    /// Adds a patch, dropping the oldest one beyond the limit.
    pub fn push_patch(&mut self, patch: P)
        requires
            old(self).inv(),
        ensures
            final(self).inv(),
            final(self).patches@ == bounded_push(old(self).patches@, patch, MAX_VISIBLE_WAKE_PATCHES as nat),
            final(self).emitters@ == old(self).emitters@,
            final(self).frame == old(self).frame,
    {
        self.patches.push(patch);
        if self.patches.len() > MAX_VISIBLE_WAKE_PATCHES {
            self.patches.remove(0);
        }
        proof {
            let before = old(self).patches@;
            if before.len() >= MAX_VISIBLE_WAKE_PATCHES {
                assert(self.patches@ =~= before.drop_first().push(patch));
            }
        }
    }

    /// Forgets all emitters and patches and restarts the frame count.
    pub fn clear(&mut self)
        ensures
            final(self).emitters@.len() == 0,
            final(self).patches@.len() == 0,
            final(self).frame == 0,
            final(self).inv(),
    {
        self.emitters.clear();
        self.patches.clear();
        self.frame = 0;
    }
}

/// Clears the wake trails when a new run starts.
pub fn clear_cell_wake_trails<A: Copy, P: Copy>(trails: &mut CellWakeTrails<A, P>)
    ensures
        final(trails).emitters@.len() == 0,
        final(trails).patches@.len() == 0,
        final(trails).frame == 0,
        final(trails).inv(),
{
    trails.clear();
}

} // verus!
