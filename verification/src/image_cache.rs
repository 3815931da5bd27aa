use vstd::prelude::*;

verus! {

/// Most cached ledger miniatures beyond those in view.
pub const MINIATURE_CACHE_SLACK: usize = 64;
/// Most cached journal portraits.
pub const PORTRAIT_CACHE_LIMIT: usize = 32;

/// Rendered species images, each with the signature of the shape it was
/// drawn from; `H` is the image handle.
pub struct SpeciesImageCache<H> {
    pub entries: Vec<(u32, u64, H)>,
}

/// The signature and image cached for `species`, if any (the last entry,
/// should it repeat).
pub open spec fn cached_image<H>(entries: Seq<(u32, u64, H)>, species: u32) -> Option<(u64, H)>
    decreases entries.len(),
{
    if entries.len() == 0 {
        None
    } else if entries.last().0 == species {
        Some((entries.last().1, entries.last().2))
    } else {
        cached_image(entries.drop_last(), species)
    }
}

/// No species is cached twice.
pub open spec fn distinct_species<H>(entries: Seq<(u32, u64, H)>) -> bool {
    forall|i: int, j: int| 0 <= i < entries.len() && 0 <= j < entries.len() && i != j
        ==> #[trigger] entries[i].0 != #[trigger] entries[j].0
}

proof fn lemma_cached_image_at<H>(entries: Seq<(u32, u64, H)>, species: u32)
    requires
        distinct_species(entries),
    ensures
        cached_image(entries, species).is_none() <==> forall|i: int| 0 <= i < entries.len() ==> #[trigger] entries[i].0 != species,
        forall|i: int| 0 <= i < entries.len() && #[trigger] entries[i].0 == species
            ==> cached_image(entries, species) == Some((entries[i].1, entries[i].2)),
    decreases entries.len(),
{
    if entries.len() > 0 {
        let d = entries.drop_last();
        assert(distinct_species(d)) by {
            assert forall|i: int, j: int| 0 <= i < d.len() && 0 <= j < d.len() && i != j
                implies #[trigger] d[i].0 != #[trigger] d[j].0 by {
                assert(d[i] == entries[i] && d[j] == entries[j]);
            }
        }
        lemma_cached_image_at(d, species);
        assert forall|i: int| 0 <= i < entries.len() && #[trigger] entries[i].0 == species
            implies cached_image(entries, species) == Some((entries[i].1, entries[i].2)) by {
            if i < entries.len() - 1 {
                assert(d[i] == entries[i]);
                assert(entries[entries.len() - 1].0 != species);
            }
        }
        if entries.last().0 != species {
            assert forall|i: int| 0 <= i < entries.len() && (forall|k: int| 0 <= k < d.len() ==> #[trigger] d[k].0 != species)
                implies #[trigger] entries[i].0 != species by {
                if i < entries.len() - 1 {
                    assert(d[i] == entries[i]);
                }
            }
            if cached_image(entries, species).is_none() {
                assert forall|k: int| 0 <= k < d.len() implies #[trigger] d[k].0 != species by {
                    assert(d[k] == entries[k]);
                }
            }
        }
    }
}

impl<H> SpeciesImageCache<H> {
    pub open spec fn inv(&self) -> bool {
        distinct_species(self.entries@)
    }

    /// An empty cache.
    pub fn new() -> (cache: Self)
        ensures
            cache.entries@.len() == 0,
            cache.inv(),
    {
        SpeciesImageCache { entries: Vec::new() }
    }

    /// Position of the image of `species` when it was drawn from a shape
    /// with this `signature`; `None` when it must be drawn (again).
    pub fn fresh_image(&self, species: u32, signature: u64) -> (found: Option<usize>)
        requires
            self.inv(),
        ensures
            match found {
                Some(i) => i < self.entries.len() && self.entries@[i as int].0 == species
                    && cached_image(self.entries@, species) == Some((signature, self.entries@[i as int].2)),
                None => match cached_image(self.entries@, species) {
                    Some(cached) => cached.0 != signature,
                    None => true,
                },
            },
    {
        let mut i: usize = 0;
        while i < self.entries.len()
            invariant
                i <= self.entries.len(),
                self.inv(),
                forall|k: int| 0 <= k < i ==> #[trigger] self.entries@[k].0 != species,
            decreases self.entries.len() - i,
        {
            if self.entries[i].0 == species {
                proof {
                    lemma_cached_image_at(self.entries@, species);
                }
                if self.entries[i].1 == signature {
                    return Some(i);
                }
                return None;
            }
            i = i + 1;
        }
        proof {
            lemma_cached_image_at(self.entries@, species);
        }
        None
    }

    /// Stores the image of `species` drawn from a shape with `signature`,
    /// replacing any earlier one.
    pub fn store(&mut self, species: u32, signature: u64, image: H)
        requires
            old(self).inv(),
        ensures
            final(self).inv(),
            cached_image(final(self).entries@, species) == Some((signature, image)),
            forall|other: u32| other != species ==> #[trigger] cached_image(final(self).entries@, other)
                == cached_image(old(self).entries@, other),
    {
        let ghost before = self.entries@;
        proof {
            lemma_cached_image_at(before, species);
        }
        let mut i: usize = 0;
        while i < self.entries.len()
            invariant
                i <= self.entries.len(),
                self.entries@ == before,
                before == old(self).entries@,
                distinct_species(before),
                forall|k: int| 0 <= k < i ==> #[trigger] self.entries@[k].0 != species,
            decreases self.entries.len() - i,
        {
            if self.entries[i].0 == species {
                self.entries.set(i, (species, signature, image));
                proof {
                    let after = self.entries@;
                    assert(distinct_species(after)) by {
                        assert forall|a: int, b: int| 0 <= a < after.len() && 0 <= b < after.len() && a != b
                            implies #[trigger] after[a].0 != #[trigger] after[b].0 by {
                            assert(after[a].0 == before[a].0 && after[b].0 == before[b].0);
                        }
                    }
                    lemma_cached_image_at(after, species);
                    assert(after[i as int].0 == species);
                    assert forall|other: u32| other != species implies #[trigger] cached_image(after, other)
                        == cached_image(before, other) by {
                        lemma_cached_image_at(after, other);
                        lemma_cached_image_at(before, other);
                        if cached_image(before, other).is_some() {
                            let k = choose|k: int| 0 <= k < before.len() && #[trigger] before[k].0 == other;
                            assert(after[k] == before[k]);
                        } else if cached_image(after, other).is_some() {
                            let k = choose|k: int| 0 <= k < after.len() && #[trigger] after[k].0 == other;
                            assert(after[k] == before[k]);
                        }
                    }
                }
                return;
            }
            i = i + 1;
        }
        self.entries.push((species, signature, image));
        proof {
            let after = self.entries@;
            assert(after == before.push((species, signature, image)));
            assert(distinct_species(after)) by {
                assert forall|a: int, b: int| 0 <= a < after.len() && 0 <= b < after.len() && a != b
                    implies #[trigger] after[a].0 != #[trigger] after[b].0 by {
                    if a < before.len() && b < before.len() {
                        assert(after[a] == before[a] && after[b] == before[b]);
                    } else if a < before.len() {
                        assert(after[a] == before[a]);
                    } else {
                        assert(after[b] == before[b]);
                    }
                }
            }
            assert(after.drop_last() =~= before);
        }
    }

    /// Forgets the images of the species not in `keep`.
    pub fn retain_species(&mut self, keep: &Vec<u32>)
        requires
            old(self).inv(),
        ensures
            final(self).inv(),
            final(self).entries@ == kept_images(old(self).entries@, keep@),
            forall|s: u32| #[trigger] cached_image(final(self).entries@, s)
                == if keep@.contains(s) { cached_image(old(self).entries@, s) } else { None },
    {
        let ghost before = self.entries@;
        let ghost mut processed: int = 0;
        let mut i: usize = 0;
        assert(before.take(0) =~= Seq::<(u32, u64, H)>::empty());
        assert(before.skip(0) =~= before);
        while i < self.entries.len()
            invariant
                0 <= processed <= before.len(),
                i as int == kept_images(before.take(processed), keep@).len(),
                self.entries@ == kept_images(before.take(processed), keep@) + before.skip(processed),
            decreases self.entries.len() - i,
        {
            assert(self.entries@[i as int] == before[processed]);
            assert(before.take(processed + 1).drop_last() =~= before.take(processed));
            assert(before.take(processed + 1).last() == before[processed]);
            assert(before.skip(processed).drop_first() =~= before.skip(processed + 1));
            if contains_species(keep, self.entries[i].0) {
                assert(self.entries@ =~= kept_images(before.take(processed + 1), keep@) + before.skip(processed + 1));
                i = i + 1;
            } else {
                self.entries.remove(i);
                assert(self.entries@ =~= kept_images(before.take(processed + 1), keep@) + before.skip(processed + 1));
            }
            proof {
                processed = processed + 1;
            }
        }
        proof {
            assert(before.skip(processed).len() == 0);
            assert(before.take(processed) =~= before);
            assert(before.skip(processed) =~= Seq::<(u32, u64, H)>::empty());
            assert(self.entries@ =~= kept_images(before, keep@));
            lemma_kept_images(before, keep@);
        }
    }

    /// Keeps the ledger miniature cache small: when it holds more than 64
    /// images beyond the `visible` species, only theirs are kept.
    pub fn prune_miniatures(&mut self, visible: &Vec<u32>)
        requires
            old(self).inv(),
        ensures
            final(self).inv(),
            final(self).entries@ == if old(self).entries.len() > visible.len() + MINIATURE_CACHE_SLACK {
                kept_images(old(self).entries@, visible@)
            } else {
                old(self).entries@
            },
    {
        if self.entries.len() > MINIATURE_CACHE_SLACK && self.entries.len() - MINIATURE_CACHE_SLACK > visible.len() {
            self.retain_species(visible);
        }
    }

    /// Keeps the journal portrait cache small: when it holds more than 32
    /// images, only the one of the `selected` species is kept.
    pub fn prune_portraits(&mut self, selected: u32)
        requires
            old(self).inv(),
        ensures
            final(self).inv(),
            final(self).entries@ == if old(self).entries.len() > PORTRAIT_CACHE_LIMIT {
                kept_images(old(self).entries@, seq![selected])
            } else {
                old(self).entries@
            },
    {
        if self.entries.len() > PORTRAIT_CACHE_LIMIT {
            let keep = vec![selected];
            assert(keep@ =~= seq![selected]);
            self.retain_species(&keep);
        }
    }
}

/// Whether `species` is in `keep`.
fn contains_species(keep: &Vec<u32>, species: u32) -> (found: bool)
    ensures
        found == keep@.contains(species),
{
    let mut j: usize = 0;
    while j < keep.len()
        invariant
            j <= keep.len(),
            forall|k: int| 0 <= k < j ==> keep@[k] != species,
        decreases keep.len() - j,
    {
        if keep[j] == species {
            assert(keep@[j as int] == species);
            return true;
        }
        j = j + 1;
    }
    false
}

/// The entries whose species is in `keep`, in order.
pub open spec fn kept_images<H>(entries: Seq<(u32, u64, H)>, keep: Seq<u32>) -> Seq<(u32, u64, H)>
    decreases entries.len(),
{
    if entries.len() == 0 {
        Seq::empty()
    } else if keep.contains(entries.last().0) {
        kept_images(entries.drop_last(), keep).push(entries.last())
    } else {
        kept_images(entries.drop_last(), keep)
    }
}

proof fn kept_origin<H>(entries: Seq<(u32, u64, H)>, keep: Seq<u32>, m: int) -> (i: int)
    requires
        0 <= m < kept_images(entries, keep).len(),
    ensures
        0 <= i < entries.len(),
        kept_images(entries, keep)[m] == entries[i],
        keep.contains(entries[i].0),
        m < kept_images(entries, keep).len() - 1 ==> i < entries.len() - 1,
    decreases entries.len(),
{
    let d = entries.drop_last();
    let kd = kept_images(d, keep);
    if m < kd.len() {
        let i = kept_origin(d, keep, m);
        assert(d[i] == entries[i]);
        i
    } else {
        entries.len() - 1
    }
}

/// Keeping some species keeps their images as they were, forgets the
/// others, and never caches a species twice.
pub proof fn lemma_kept_images<H>(entries: Seq<(u32, u64, H)>, keep: Seq<u32>)
    ensures
        forall|s: u32| #[trigger] cached_image(kept_images(entries, keep), s)
            == if keep.contains(s) { cached_image(entries, s) } else { None },
        distinct_species(entries) ==> distinct_species(kept_images(entries, keep)),
    decreases entries.len(),
{
    if entries.len() > 0 {
        let d = entries.drop_last();
        lemma_kept_images(d, keep);
        let kd = kept_images(d, keep);
        let k = kept_images(entries, keep);
        assert forall|s: u32| #[trigger] cached_image(k, s)
            == if keep.contains(s) { cached_image(entries, s) } else { None } by {
            if keep.contains(entries.last().0) {
                assert(k.drop_last() =~= kd);
            }
        }
        if distinct_species(entries) {
            assert(distinct_species(d)) by {
                assert forall|a: int, b: int| 0 <= a < d.len() && 0 <= b < d.len() && a != b
                    implies #[trigger] d[a].0 != #[trigger] d[b].0 by {
                    assert(d[a] == entries[a] && d[b] == entries[b]);
                }
            }
            assert forall|a: int, b: int| 0 <= a < k.len() && 0 <= b < k.len() && a != b
                implies #[trigger] k[a].0 != #[trigger] k[b].0 by {
                if a < kd.len() && b < kd.len() {
                    assert(k[a] == kd[a] && k[b] == kd[b]);
                } else {
                    let (x, y) = if a < kd.len() { (a, b) } else { (b, a) };
                    assert(k[x] == kd[x]);
                    assert(k[y] == entries[entries.len() - 1]);
                    let i = kept_origin(d, keep, x);
                    assert(d[i] == entries[i]);
                }
            }
        }
    }
}

} // verus!
