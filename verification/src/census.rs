use vstd::prelude::*;
use crate::chronicle::ChronicleEventKind;
use crate::ledger::{species_cells, species_in_order, tally_species, tallied_species};

verus! {

/// Living cells of one species in a world sample.
#[derive(Clone, Copy, PartialEq, Eq, Structural, Debug)]
pub struct SpeciesCount {
    pub species: u32,
    pub alive: usize,
}

/// What the chronicle remembers of a species: its living cells at the last
/// sample and the largest population it ever had.
#[derive(Clone, Copy, PartialEq, Eq, Structural, Debug)]
pub struct ChronicleSpeciesRecord {
    pub species: u32,
    pub alive: usize,
    pub peak_alive: usize,
}

/// Balance of the external energy flow.
#[derive(Clone, Copy, PartialEq, Eq, Structural, Debug)]
pub enum ChronicleEnergyState {
    Deficit,
    Balanced,
    Surplus,
}

impl Default for ChronicleEnergyState {
    fn default() -> (state: Self)
        ensures
            state == ChronicleEnergyState::Balanced,
    {
        ChronicleEnergyState::Balanced
    }
}

/// A noteworthy change found by the census, to be written into the chronicle.
#[derive(Clone, Copy, PartialEq, Eq, Structural, Debug)]
pub enum ChronicleNote {
    /// The first sample of the ecosystem.
    Started { cells: usize, food: usize, species_total: usize },
    /// A species seen for the first time.
    NewSpecies { species: u32, alive: usize },
    /// A species grew well past its previous peak.
    SpeciesPeak { species: u32, from: usize, to: usize },
    /// The last living cell of a species is gone.
    Extinction { species: u32 },
    /// A species became the most numerous one, with a large share.
    NewDominant { species: u32, alive: usize, total_cells: usize },
    /// The energy balance changed state.
    EnergyShift { state: ChronicleEnergyState },
    /// The population grew by at least 18% since the last check.
    PopulationSurge { previous: usize, current: usize },
    /// The population shrank by at least 18% since the last check.
    PopulationCrash { previous: usize, current: usize },
    /// Cells able to attack by lysis appeared for the first time.
    LysisAppeared { cells: usize },
    /// Cells with several body sections appeared for the first time.
    SegmentationAppeared { cells: usize },
}

/// The event category under which a note is filed.
pub open spec fn note_kind(note: ChronicleNote) -> ChronicleEventKind {
    match note {
        ChronicleNote::Started { .. } => ChronicleEventKind::World,
        ChronicleNote::NewSpecies { .. } => ChronicleEventKind::Species,
        ChronicleNote::SpeciesPeak { .. } => ChronicleEventKind::Population,
        ChronicleNote::Extinction { .. } => ChronicleEventKind::Extinction,
        ChronicleNote::NewDominant { .. } => ChronicleEventKind::Population,
        ChronicleNote::EnergyShift { .. } => ChronicleEventKind::Energy,
        ChronicleNote::PopulationSurge { .. } => ChronicleEventKind::Population,
        ChronicleNote::PopulationCrash { .. } => ChronicleEventKind::Population,
        ChronicleNote::LysisAppeared { .. } => ChronicleEventKind::Trait,
        ChronicleNote::SegmentationAppeared { .. } => ChronicleEventKind::Trait,
    }
}

/// The event category of a note.
pub fn chronicle_note_kind(note: &ChronicleNote) -> (kind: ChronicleEventKind)
    ensures
        kind == note_kind(*note),
{
    match note {
        ChronicleNote::Started { .. } => ChronicleEventKind::World,
        ChronicleNote::NewSpecies { .. } => ChronicleEventKind::Species,
        ChronicleNote::SpeciesPeak { .. } => ChronicleEventKind::Population,
        ChronicleNote::Extinction { .. } => ChronicleEventKind::Extinction,
        ChronicleNote::NewDominant { .. } => ChronicleEventKind::Population,
        ChronicleNote::EnergyShift { .. } => ChronicleEventKind::Energy,
        ChronicleNote::PopulationSurge { .. } => ChronicleEventKind::Population,
        ChronicleNote::PopulationCrash { .. } => ChronicleEventKind::Population,
        ChronicleNote::LysisAppeared { .. } => ChronicleEventKind::Trait,
        ChronicleNote::SegmentationAppeared { .. } => ChronicleEventKind::Trait,
    }
}

// ----- model -----

/// No species occurs twice among the counts.
pub open spec fn distinct_counts(counts: Seq<SpeciesCount>) -> bool {
    forall|i: int, j: int| 0 <= i < counts.len() && 0 <= j < counts.len() && i != j
        ==> #[trigger] counts[i].species != #[trigger] counts[j].species
}

/// No species occurs twice among the records.
pub open spec fn distinct_records(records: Seq<ChronicleSpeciesRecord>) -> bool {
    forall|i: int, j: int| 0 <= i < records.len() && 0 <= j < records.len() && i != j
        ==> #[trigger] records[i].species != #[trigger] records[j].species
}

/// Living cells counted for `species`, if it was counted.
pub open spec fn count_of(counts: Seq<SpeciesCount>, species: u32) -> Option<usize>
    decreases counts.len(),
{
    if counts.len() == 0 {
        None
    } else if counts.last().species == species {
        Some(counts.last().alive)
    } else {
        count_of(counts.drop_last(), species)
    }
}

/// The record of `species`, if there is one.
pub open spec fn record_of(records: Seq<ChronicleSpeciesRecord>, species: u32) -> Option<ChronicleSpeciesRecord>
    decreases records.len(),
{
    if records.len() == 0 {
        None
    } else if records.last().species == species {
        Some(records.last())
    } else {
        record_of(records.drop_last(), species)
    }
}

/// `a + b`, saturating at the largest `usize`.
pub open spec fn saturating_add(a: usize, b: usize) -> usize {
    if a + b > usize::MAX { usize::MAX } else { (a + b) as usize }
}

/// A species with a peak of at least 8 reaches a new peak when it counts at
/// least 10 more cells than that peak and at least 1.6 times it.
pub open spec fn peak_reached(record: ChronicleSpeciesRecord, alive: usize) -> bool {
    &&& record.peak_alive >= 8
    &&& alive >= saturating_add(record.peak_alive, 10)
    &&& 5 * alive >= 8 * record.peak_alive
}

pub open spec fn fresh_record(count: SpeciesCount) -> ChronicleSpeciesRecord {
    ChronicleSpeciesRecord { species: count.species, alive: count.alive, peak_alive: count.alive }
}

/// The note for one counted species: a new species, a new peak, or nothing.
pub open spec fn note_for_count(count: SpeciesCount, records: Seq<ChronicleSpeciesRecord>) -> Seq<ChronicleNote> {
    match record_of(records, count.species) {
        None => seq![ChronicleNote::NewSpecies { species: count.species, alive: count.alive }],
        Some(r) => if peak_reached(r, count.alive) {
            seq![ChronicleNote::SpeciesPeak { species: count.species, from: r.peak_alive, to: count.alive }]
        } else {
            Seq::empty()
        },
    }
}

/// Notes for the counted species, in the order of the counts.
pub open spec fn count_notes(counts: Seq<SpeciesCount>, records: Seq<ChronicleSpeciesRecord>) -> Seq<ChronicleNote>
    decreases counts.len(),
{
    if counts.len() == 0 {
        Seq::empty()
    } else {
        count_notes(counts.drop_last(), records) + note_for_count(counts.last(), records)
    }
}

/// Whether a recorded species died out: it had living cells and is no
/// longer counted.
pub open spec fn went_extinct(record: ChronicleSpeciesRecord, counts: Seq<SpeciesCount>) -> bool {
    record.alive > 0 && count_of(counts, record.species).is_none()
}

/// Extinction notes, in the order of the records.
pub open spec fn extinct_notes(records: Seq<ChronicleSpeciesRecord>, counts: Seq<SpeciesCount>) -> Seq<ChronicleNote>
    decreases records.len(),
{
    if records.len() == 0 {
        Seq::empty()
    } else {
        extinct_notes(records.drop_last(), counts) + if went_extinct(records.last(), counts) {
            seq![ChronicleNote::Extinction { species: records.last().species }]
        } else {
            Seq::empty()
        }
    }
}

/// A record after a regular sample: counted species take the new count
/// and raise their peak, the others drop to zero.
pub open spec fn updated_record(record: ChronicleSpeciesRecord, counts: Seq<SpeciesCount>) -> ChronicleSpeciesRecord {
    match count_of(counts, record.species) {
        Some(a) => ChronicleSpeciesRecord {
            alive: a,
            peak_alive: if a > record.peak_alive { a } else { record.peak_alive },
            ..record
        },
        None => ChronicleSpeciesRecord { alive: 0, ..record },
    }
}

/// A record after the first sample: counted species start over from the
/// count, the others stay as they were.
pub open spec fn restarted_record(record: ChronicleSpeciesRecord, counts: Seq<SpeciesCount>) -> ChronicleSpeciesRecord {
    match count_of(counts, record.species) {
        Some(a) => ChronicleSpeciesRecord { species: record.species, alive: a, peak_alive: a },
        None => record,
    }
}

/// Records for counted species that had none, in the order of the counts.
pub open spec fn fresh_records(counts: Seq<SpeciesCount>, records: Seq<ChronicleSpeciesRecord>) -> Seq<ChronicleSpeciesRecord>
    decreases counts.len(),
{
    if counts.len() == 0 {
        Seq::empty()
    } else {
        fresh_records(counts.drop_last(), records) + if record_of(records, counts.last().species).is_none() {
            seq![fresh_record(counts.last())]
        } else {
            Seq::empty()
        }
    }
}

/// The records after a sample.
pub open spec fn records_after(records: Seq<ChronicleSpeciesRecord>, counts: Seq<SpeciesCount>, first_sample: bool) -> Seq<ChronicleSpeciesRecord> {
    if first_sample {
        records.map_values(|r: ChronicleSpeciesRecord| restarted_record(r, counts)) + fresh_records(counts, records)
    } else {
        records.map_values(|r: ChronicleSpeciesRecord| updated_record(r, counts)) + fresh_records(counts, records)
    }
}

/// Index of the most numerous counted species; among equals, the last one.
pub open spec fn last_max_index(counts: Seq<SpeciesCount>) -> int
    decreases counts.len(),
{
    if counts.len() <= 1 {
        0
    } else {
        let j = last_max_index(counts.drop_last());
        if counts.last().alive >= counts[j].alive { counts.len() - 1 } else { j }
    }
}

/// The most numerous species, when it holds at least 12% of all cells.
pub open spec fn dominant_pick(counts: Seq<SpeciesCount>, total_cells: usize) -> Option<SpeciesCount> {
    if counts.len() == 0 {
        None
    } else {
        let c = counts[last_max_index(counts)];
        let total = if total_cells < 1 { 1 } else { total_cells as int };
        if 100 * c.alive >= 12 * total { Some(c) } else { None }
    }
}

// ----- lemmas on the model -----

proof fn lemma_count_of_none(counts: Seq<SpeciesCount>, species: u32)
    ensures
        count_of(counts, species).is_none() <==> forall|i: int| 0 <= i < counts.len() ==> #[trigger] counts[i].species != species,
        count_of(counts, species).is_some() ==> exists|i: int| 0 <= i < counts.len() && #[trigger] counts[i].species == species
            && counts[i].alive == count_of(counts, species).unwrap(),
    decreases counts.len(),
{
    if counts.len() > 0 {
        let d = counts.drop_last();
        lemma_count_of_none(d, species);
        if count_of(counts, species).is_some() && counts.last().species != species {
            let i = choose|i: int| 0 <= i < d.len() && #[trigger] d[i].species == species && d[i].alive == count_of(d, species).unwrap();
            assert(counts[i] == d[i]);
        }
        if counts.last().species != species {
            assert forall|i: int| 0 <= i < counts.len() && (forall|k: int| 0 <= k < d.len() ==> #[trigger] d[k].species != species)
                implies #[trigger] counts[i].species != species by {
                if i < counts.len() - 1 {
                    assert(counts[i] == d[i]);
                }
            }
        }
    }
}

proof fn lemma_record_of_none(records: Seq<ChronicleSpeciesRecord>, species: u32)
    ensures
        record_of(records, species).is_none() <==> forall|i: int| 0 <= i < records.len() ==> #[trigger] records[i].species != species,
        record_of(records, species).is_some() ==> record_of(records, species).unwrap().species == species,
    decreases records.len(),
{
    if records.len() > 0 {
        let d = records.drop_last();
        lemma_record_of_none(d, species);
        if records.last().species != species {
            assert forall|i: int| 0 <= i < records.len() && (forall|k: int| 0 <= k < d.len() ==> #[trigger] d[k].species != species)
                implies #[trigger] records[i].species != species by {
                if i < records.len() - 1 {
                    assert(records[i] == d[i]);
                }
            }
            if record_of(records, species).is_none() {
                assert forall|k: int| 0 <= k < d.len() implies #[trigger] d[k].species != species by {
                    assert(records[k] == d[k]);
                }
            }
        }
    }
}

proof fn lemma_fresh_records(counts: Seq<SpeciesCount>, records: Seq<ChronicleSpeciesRecord>)
    ensures
        forall|k: int| 0 <= k < fresh_records(counts, records).len() ==> exists|i: int| 0 <= i < counts.len()
            && #[trigger] fresh_records(counts, records)[k] == fresh_record(counts[i])
            && record_of(records, counts[i].species).is_none(),
        distinct_counts(counts) ==> distinct_records(fresh_records(counts, records)),
    decreases counts.len(),
{
    if counts.len() > 0 {
        let d = counts.drop_last();
        lemma_fresh_records(d, records);
        let fd = fresh_records(d, records);
        let f = fresh_records(counts, records);
        assert forall|k: int| 0 <= k < f.len() implies exists|i: int| 0 <= i < counts.len()
            && #[trigger] f[k] == fresh_record(counts[i]) && record_of(records, counts[i].species).is_none() by {
            if k < fd.len() {
                assert(f[k] == fd[k]);
                let i = choose|i: int| 0 <= i < d.len() && #[trigger] fd[k] == fresh_record(d[i]) && record_of(records, d[i].species).is_none();
                assert(counts[i] == d[i]);
            } else {
                assert(f[k] == fresh_record(counts[counts.len() - 1]));
            }
        }
        if distinct_counts(counts) {
            assert(distinct_counts(d)) by {
                assert forall|i: int, j: int| 0 <= i < d.len() && 0 <= j < d.len() && i != j
                    implies #[trigger] d[i].species != #[trigger] d[j].species by {
                    assert(d[i] == counts[i] && d[j] == counts[j]);
                }
            }
            assert forall|a: int, b: int| 0 <= a < f.len() && 0 <= b < f.len() && a != b
                implies #[trigger] f[a].species != #[trigger] f[b].species by {
                if a < fd.len() && b < fd.len() {
                    assert(f[a] == fd[a] && f[b] == fd[b]);
                } else if a < fd.len() {
                    assert(f[a] == fd[a]);
                    let i = choose|i: int| 0 <= i < d.len() && #[trigger] fd[a] == fresh_record(d[i]) && record_of(records, d[i].species).is_none();
                    assert(d[i] == counts[i]);
                    assert(f[b] == fresh_record(counts[counts.len() - 1]));
                } else {
                    assert(f[b] == fd[b]);
                    let i = choose|i: int| 0 <= i < d.len() && #[trigger] fd[b] == fresh_record(d[i]) && record_of(records, d[i].species).is_none();
                    assert(d[i] == counts[i]);
                    assert(f[a] == fresh_record(counts[counts.len() - 1]));
                }
            }
        }
    }
}

/// No record counts more living cells than its peak.
pub open spec fn peaks_cover_alive(records: Seq<ChronicleSpeciesRecord>) -> bool {
    forall|i: int| 0 <= i < records.len() ==> #[trigger] records[i].alive <= records[i].peak_alive
}

/// A species' peak is never below its living count: a sample keeps this
/// for every record.
pub proof fn lemma_peaks_cover_alive(records: Seq<ChronicleSpeciesRecord>, counts: Seq<SpeciesCount>, first_sample: bool)
    requires
        peaks_cover_alive(records),
    ensures
        peaks_cover_alive(records_after(records, counts, first_sample)),
{
    lemma_fresh_records(counts, records);
    let f = fresh_records(counts, records);
    let m = if first_sample {
        records.map_values(|r: ChronicleSpeciesRecord| restarted_record(r, counts))
    } else {
        records.map_values(|r: ChronicleSpeciesRecord| updated_record(r, counts))
    };
    let all = records_after(records, counts, first_sample);
    assert(all == m + f);
    assert forall|i: int| 0 <= i < all.len() implies #[trigger] all[i].alive <= all[i].peak_alive by {
        if i < m.len() {
            assert(all[i] == m[i]);
        } else {
            assert(all[i] == f[i - m.len()]);
            let k = choose|k: int| 0 <= k < counts.len() && #[trigger] f[i - m.len()] == fresh_record(counts[k])
                && record_of(records, counts[k].species).is_none();
        }
    }
}

/// The records after a sample name every species at most once, provided
/// the records before did and the sample counts each species once.
pub proof fn lemma_records_stay_distinct(records: Seq<ChronicleSpeciesRecord>, counts: Seq<SpeciesCount>, first_sample: bool)
    requires
        distinct_records(records),
        distinct_counts(counts),
    ensures
        distinct_records(records_after(records, counts, first_sample)),
{
    lemma_fresh_records(counts, records);
    let f = fresh_records(counts, records);
    let m = if first_sample {
        records.map_values(|r: ChronicleSpeciesRecord| restarted_record(r, counts))
    } else {
        records.map_values(|r: ChronicleSpeciesRecord| updated_record(r, counts))
    };
    let all = records_after(records, counts, first_sample);
    assert(all == m + f);
    assert forall|i: int| 0 <= i < m.len() implies #[trigger] m[i].species == records[i].species by {}
    assert forall|a: int, b: int| 0 <= a < all.len() && 0 <= b < all.len() && a != b
        implies #[trigger] all[a].species != #[trigger] all[b].species by {
        if a < m.len() && b < m.len() {
            assert(all[a] == m[a] && all[b] == m[b]);
        } else if a >= m.len() && b >= m.len() {
            assert(all[a] == f[a - m.len()] && all[b] == f[b - m.len()]);
        } else {
            let (x, y) = if a < m.len() { (a, b) } else { (b, a) };
            assert(all[x] == m[x]);
            assert(all[y] == f[y - m.len()]);
            let i = choose|i: int| 0 <= i < counts.len() && #[trigger] f[y - m.len()] == fresh_record(counts[i])
                && record_of(records, counts[i].species).is_none();
            lemma_record_of_none(records, counts[i].species);
            assert(records[x].species != counts[i].species);
        }
    }
}

proof fn lemma_fresh_records_hold(counts: Seq<SpeciesCount>, records: Seq<ChronicleSpeciesRecord>, i: int)
    requires
        0 <= i < counts.len(),
        record_of(records, counts[i].species).is_none(),
    ensures
        exists|k: int| 0 <= k < fresh_records(counts, records).len() && #[trigger] fresh_records(counts, records)[k].species == counts[i].species,
    decreases counts.len(),
{
    let d = counts.drop_last();
    let f = fresh_records(counts, records);
    let fd = fresh_records(d, records);
    if i == counts.len() - 1 {
        assert(f == fd + seq![fresh_record(counts.last())]);
        assert(f[fd.len() as int].species == counts[i].species);
    } else {
        assert(d[i] == counts[i]);
        lemma_fresh_records_hold(d, records, i);
        let k = choose|k: int| 0 <= k < fd.len() && #[trigger] fd[k].species == d[i].species;
        assert(f[k] == fd[k]);
        assert(f[k].species == counts[i].species);
    }
}

/// Every species of a sample has a record afterwards, so a species is
/// announced as new only once.
pub proof fn lemma_counted_species_are_recorded(
    records: Seq<ChronicleSpeciesRecord>,
    counts: Seq<SpeciesCount>,
    first_sample: bool,
    i: int,
)
    requires
        0 <= i < counts.len(),
    ensures
        record_of(records_after(records, counts, first_sample), counts[i].species).is_some(),
        note_for_count(counts[i], records_after(records, counts, first_sample)).len() == 0
            || note_for_count(counts[i], records_after(records, counts, first_sample))[0] is SpeciesPeak,
{
    let sp = counts[i].species;
    let f = fresh_records(counts, records);
    let m = if first_sample {
        records.map_values(|r: ChronicleSpeciesRecord| restarted_record(r, counts))
    } else {
        records.map_values(|r: ChronicleSpeciesRecord| updated_record(r, counts))
    };
    let all = records_after(records, counts, first_sample);
    assert(all == m + f);
    lemma_record_of_none(records, sp);
    lemma_record_of_none(all, sp);
    if record_of(records, sp).is_some() {
        let j = choose|j: int| 0 <= j < records.len() && #[trigger] records[j].species == sp;
        assert(all[j] == m[j]);
        assert(all[j].species == sp);
    } else {
        lemma_fresh_records_hold(counts, records, i);
        let k = choose|k: int| 0 <= k < f.len() && #[trigger] f[k].species == sp;
        assert(all[m.len() + k] == f[k]);
    }
}

proof fn lemma_no_extinct_notes(records: Seq<ChronicleSpeciesRecord>, counts: Seq<SpeciesCount>)
    requires
        forall|k: int| 0 <= k < records.len() ==> !went_extinct(#[trigger] records[k], counts),
    ensures
        extinct_notes(records, counts).len() == 0,
    decreases records.len(),
{
    if records.len() > 0 {
        let d = records.drop_last();
        assert forall|k: int| 0 <= k < d.len() implies !went_extinct(#[trigger] d[k], counts) by {
            assert(d[k] == records[k]);
        }
        lemma_no_extinct_notes(d, counts);
        assert(!went_extinct(records[records.len() - 1], counts));
    }
}

/// An extinction is reported once: a second sample that counts the same
/// species as the one before it reports no extinction.
pub proof fn lemma_extinction_reported_once(records: Seq<ChronicleSpeciesRecord>, counts: Seq<SpeciesCount>)
    ensures
        extinct_notes(records_after(records, counts, false), counts).len() == 0,
{
    lemma_fresh_records(counts, records);
    let f = fresh_records(counts, records);
    let m = records.map_values(|r: ChronicleSpeciesRecord| updated_record(r, counts));
    let all = records_after(records, counts, false);
    assert(all == m + f);
    assert forall|k: int| 0 <= k < all.len() implies !went_extinct(#[trigger] all[k], counts) by {
        if k < m.len() {
            assert(all[k] == m[k]);
        } else {
            assert(all[k] == f[k - m.len()]);
            let i = choose|i: int| 0 <= i < counts.len() && #[trigger] f[k - m.len()] == fresh_record(counts[i])
                && record_of(records, counts[i].species).is_none();
            lemma_count_of_none(counts, counts[i].species);
        }
    }
    lemma_no_extinct_notes(all, counts);
}

// ----- census state and its update -----

/// What the chronicle keeps between samples to decide which changes are
/// worth a note.
pub struct ChronicleCensus {
    pub species_records: Vec<ChronicleSpeciesRecord>,
    pub dominant_species: Option<u32>,
    pub energy_state: ChronicleEnergyState,
    pub first_lysis_reported: bool,
    pub first_segmented_reported: bool,
    pub last_population_check_cells: usize,
}

/// The part of a world sample that the census reads.
pub struct CensusSample {
    /// Living cells per species, each species once.
    pub counts: Vec<SpeciesCount>,
    pub total_cells: usize,
    pub food: usize,
    /// Energy balance state of this sample.
    pub energy_state: ChronicleEnergyState,
    /// Whether the periodic population comparison is due.
    pub population_check_due: bool,
    pub lysis_capable: usize,
    pub segmented: usize,
}

impl ChronicleCensus {
    /// Each species has at most one record, and no record counts more
    /// living cells than its peak.
    pub open spec fn inv(&self) -> bool {
        &&& distinct_records(self.species_records@)
        &&& peaks_cover_alive(self.species_records@)
    }

    /// A census that has seen nothing yet.
    pub fn new() -> (census: Self)
        ensures
            census.species_records@.len() == 0,
            census.dominant_species.is_none(),
            census.energy_state == ChronicleEnergyState::Balanced,
            !census.first_lysis_reported,
            !census.first_segmented_reported,
            census.last_population_check_cells == 0,
            census.inv(),
    {
        ChronicleCensus {
            species_records: Vec::new(),
            dominant_species: None,
            energy_state: ChronicleEnergyState::Balanced,
            first_lysis_reported: false,
            first_segmented_reported: false,
            last_population_check_cells: 0,
        }
    }
}

/// Note on a new dominant species, if the most numerous one holds at least
/// 12% of the cells and is not already the dominant one.
pub open spec fn dominant_notes(dominant: Option<u32>, counts: Seq<SpeciesCount>, total_cells: usize) -> Seq<ChronicleNote> {
    match dominant_pick(counts, total_cells) {
        Some(d) => if dominant != Some(d.species) {
            seq![ChronicleNote::NewDominant { species: d.species, alive: d.alive, total_cells: total_cells }]
        } else {
            Seq::empty()
        },
        None => Seq::empty(),
    }
}

/// The dominant species after a regular sample.
pub open spec fn dominant_after(dominant: Option<u32>, counts: Seq<SpeciesCount>, total_cells: usize) -> Option<u32> {
    match dominant_pick(counts, total_cells) {
        Some(d) => Some(d.species),
        None => dominant,
    }
}

/// Note on a population surge (at least 1.18 times the last checked count)
/// or crash (at most 0.82 times), when the check is due.
pub open spec fn population_notes(last_cells: usize, total_cells: usize, due: bool) -> Seq<ChronicleNote> {
    let previous = if last_cells < 1 { 1usize } else { last_cells };
    if !due {
        Seq::empty()
    } else if 100 * total_cells >= 118 * previous {
        seq![ChronicleNote::PopulationSurge { previous: previous, current: total_cells }]
    } else if 100 * total_cells <= 82 * previous {
        seq![ChronicleNote::PopulationCrash { previous: previous, current: total_cells }]
    } else {
        Seq::empty()
    }
}

/// Notes on the energy balance, the population check and the first
/// lysis-capable and multi-section cells.
pub open spec fn trend_notes(c: ChronicleCensus, s: CensusSample) -> Seq<ChronicleNote> {
    (if s.energy_state != c.energy_state { seq![ChronicleNote::EnergyShift { state: s.energy_state }] } else { Seq::empty() })
        + population_notes(c.last_population_check_cells, s.total_cells, s.population_check_due)
        + (if s.lysis_capable > 0 && !c.first_lysis_reported { seq![ChronicleNote::LysisAppeared { cells: s.lysis_capable }] } else { Seq::empty() })
        + (if s.segmented > 0 && !c.first_segmented_reported { seq![ChronicleNote::SegmentationAppeared { cells: s.segmented }] } else { Seq::empty() })
}

/// Notes of a regular (not first) sample, in the order in which they are
/// written: counted species, extinctions, dominance, then the trends.
pub open spec fn regular_notes(c: ChronicleCensus, s: CensusSample) -> Seq<ChronicleNote> {
    count_notes(s.counts@, c.species_records@)
        + extinct_notes(c.species_records@, s.counts@)
        + dominant_notes(c.dominant_species, s.counts@, s.total_cells)
        + trend_notes(c, s)
}

fn find_count(counts: &Vec<SpeciesCount>, species: u32) -> (found: Option<usize>)
    ensures
        found == count_of(counts@, species),
{
    let mut i = counts.len();
    assert(counts@.take(i as int) =~= counts@);
    while i > 0
        invariant
            i <= counts.len(),
            count_of(counts@, species) == count_of(counts@.take(i as int), species),
        decreases i,
    {
        assert(counts@.take(i as int).drop_last() =~= counts@.take(i - 1));
        if counts[i - 1].species == species {
            return Some(counts[i - 1].alive);
        }
        i = i - 1;
    }
    None
}

fn find_record(records: &Vec<ChronicleSpeciesRecord>, species: u32) -> (found: Option<usize>)
    ensures
        found.is_none() ==> record_of(records@, species).is_none(),
        found.is_some() ==> found.unwrap() < records.len() && record_of(records@, species) == Some(records@[found.unwrap() as int]),
{
    let mut i = records.len();
    assert(records@.take(i as int) =~= records@);
    while i > 0
        invariant
            i <= records.len(),
            record_of(records@, species) == record_of(records@.take(i as int), species),
        decreases i,
    {
        assert(records@.take(i as int).drop_last() =~= records@.take(i - 1));
        if records[i - 1].species == species {
            return Some(i - 1);
        }
        i = i - 1;
    }
    None
}

fn peak_reached_exec(record: &ChronicleSpeciesRecord, alive: usize) -> (reached: bool)
    ensures
        reached == peak_reached(*record, alive),
{
    record.peak_alive >= 8 && alive >= record.peak_alive.saturating_add(10)
        && (alive as u128) * 5 >= (record.peak_alive as u128) * 8
}

/// Notes and fresh records for the counted species.
fn census_counts(counts: &Vec<SpeciesCount>, records: &Vec<ChronicleSpeciesRecord>) -> (out: (Vec<ChronicleNote>, Vec<ChronicleSpeciesRecord>))
    ensures
        out.0@ == count_notes(counts@, records@),
        out.1@ == fresh_records(counts@, records@),
{
    let mut notes: Vec<ChronicleNote> = Vec::new();
    let mut fresh: Vec<ChronicleSpeciesRecord> = Vec::new();
    let mut i: usize = 0;
    while i < counts.len()
        invariant
            i <= counts.len(),
            notes@ == count_notes(counts@.take(i as int), records@),
            fresh@ == fresh_records(counts@.take(i as int), records@),
        decreases counts.len() - i,
    {
        let c = counts[i];
        assert(counts@.take(i + 1).drop_last() =~= counts@.take(i as int));
        assert(counts@.take(i + 1).last() == c);
        match find_record(records, c.species) {
            None => {
                notes.push(ChronicleNote::NewSpecies { species: c.species, alive: c.alive });
                fresh.push(ChronicleSpeciesRecord { species: c.species, alive: c.alive, peak_alive: c.alive });
            },
            Some(j) => {
                let r = records[j];
                if peak_reached_exec(&r, c.alive) {
                    notes.push(ChronicleNote::SpeciesPeak { species: c.species, from: r.peak_alive, to: c.alive });
                }
            },
        }
        i = i + 1;
    }
    assert(counts@.take(counts.len() as int) =~= counts@);
    (notes, fresh)
}

/// Updates the existing records from the counts and collects the
/// extinction notes; on the first sample the counted species start over.
fn census_update_records(records: &mut Vec<ChronicleSpeciesRecord>, counts: &Vec<SpeciesCount>, first_sample: bool) -> (extinct: Vec<ChronicleNote>)
    ensures
        first_sample ==> final(records)@ == old(records)@.map_values(|r: ChronicleSpeciesRecord| restarted_record(r, counts@)),
        !first_sample ==> final(records)@ == old(records)@.map_values(|r: ChronicleSpeciesRecord| updated_record(r, counts@)),
        first_sample ==> extinct@.len() == 0,
        !first_sample ==> extinct@ == extinct_notes(old(records)@, counts@),
{
    let ghost orig = records@;
    let mut extinct: Vec<ChronicleNote> = Vec::new();
    let mut i: usize = 0;
    while i < records.len()
        invariant
            i <= records.len(),
            records.len() == orig.len(),
            forall|k: int| i <= k < orig.len() ==> records@[k] == orig[k],
            first_sample ==> forall|k: int| 0 <= k < i ==> records@[k] == #[trigger] restarted_record(orig[k], counts@),
            !first_sample ==> forall|k: int| 0 <= k < i ==> records@[k] == #[trigger] updated_record(orig[k], counts@),
            first_sample ==> extinct@.len() == 0,
            !first_sample ==> extinct@ == extinct_notes(orig.take(i as int), counts@),
        decreases records.len() - i,
    {
        let r = records[i];
        assert(orig.take(i + 1).drop_last() =~= orig.take(i as int));
        assert(orig.take(i + 1).last() == r);
        match find_count(counts, r.species) {
            Some(a) => {
                let peak = if first_sample { a } else if a > r.peak_alive { a } else { r.peak_alive };
                records[i] = ChronicleSpeciesRecord { species: r.species, alive: a, peak_alive: peak };
            },
            None => {
                if !first_sample {
                    if r.alive > 0 {
                        extinct.push(ChronicleNote::Extinction { species: r.species });
                    }
                    records[i] = ChronicleSpeciesRecord { species: r.species, alive: 0, peak_alive: r.peak_alive };
                }
            },
        }
        i = i + 1;
    }
    assert(orig.take(orig.len() as int) =~= orig);
    if first_sample {
        assert(records@ =~= orig.map_values(|r: ChronicleSpeciesRecord| restarted_record(r, counts@)));
    } else {
        assert(records@ =~= orig.map_values(|r: ChronicleSpeciesRecord| updated_record(r, counts@)));
    }
    extinct
}

fn last_max_position(counts: &Vec<SpeciesCount>) -> (best: usize)
    requires
        counts.len() > 0,
    ensures
        best < counts.len(),
        best as int == last_max_index(counts@),
{
    let mut best: usize = 0;
    let mut i: usize = 1;
    assert(counts@.take(1).len() == 1);
    while i < counts.len()
        invariant
            1 <= i <= counts.len(),
            best < i,
            best as int == last_max_index(counts@.take(i as int)),
        decreases counts.len() - i,
    {
        assert(counts@.take(i + 1).drop_last() =~= counts@.take(i as int));
        assert(counts@.take(i + 1)[best as int] == counts@[best as int]);
        if counts[i].alive >= counts[best].alive {
            best = i;
        }
        i = i + 1;
    }
    assert(counts@.take(counts.len() as int) =~= counts@);
    best
}

fn census_dominant(dominant: &mut Option<u32>, counts: &Vec<SpeciesCount>, total_cells: usize) -> (notes: Vec<ChronicleNote>)
    ensures
        notes@ == dominant_notes(*old(dominant), counts@, total_cells),
        *final(dominant) == dominant_after(*old(dominant), counts@, total_cells),
{
    let mut notes: Vec<ChronicleNote> = Vec::new();
    if counts.len() > 0 {
        let best = last_max_position(counts);
        let d = counts[best];
        let total: usize = if total_cells < 1 { 1 } else { total_cells };
        if (d.alive as u128) * 100 >= (total as u128) * 12 {
            let is_current = match *dominant {
                Some(current) => current == d.species,
                None => false,
            };
            if !is_current {
                notes.push(ChronicleNote::NewDominant { species: d.species, alive: d.alive, total_cells: total_cells });
            }
            *dominant = Some(d.species);
        }
    }
    assert(notes@ =~= dominant_notes(*old(dominant), counts@, total_cells));
    notes
}

fn census_trends(census: &mut ChronicleCensus, sample: &CensusSample) -> (notes: Vec<ChronicleNote>)
    ensures
        notes@ == trend_notes(*old(census), *sample),
        final(census).species_records@ == old(census).species_records@,
        final(census).dominant_species == old(census).dominant_species,
        final(census).energy_state == sample.energy_state,
        final(census).last_population_check_cells == (if sample.population_check_due { sample.total_cells } else { old(census).last_population_check_cells }),
        final(census).first_lysis_reported == (old(census).first_lysis_reported || sample.lysis_capable > 0),
        final(census).first_segmented_reported == (old(census).first_segmented_reported || sample.segmented > 0),
{
    let ghost c0 = *old(census);
    let mut notes: Vec<ChronicleNote> = Vec::new();
    if sample.energy_state != census.energy_state {
        census.energy_state = sample.energy_state;
        notes.push(ChronicleNote::EnergyShift { state: sample.energy_state });
    }
    let ghost after_energy = notes@;
    assert(after_energy =~= (if sample.energy_state != c0.energy_state {
        seq![ChronicleNote::EnergyShift { state: sample.energy_state }] } else { Seq::empty() }));

    if sample.population_check_due {
        let previous: usize = if census.last_population_check_cells < 1 { 1 } else { census.last_population_check_cells };
        let current = sample.total_cells;
        if (current as u128) * 100 >= (previous as u128) * 118 {
            notes.push(ChronicleNote::PopulationSurge { previous: previous, current: current });
        } else if (current as u128) * 100 <= (previous as u128) * 82 {
            notes.push(ChronicleNote::PopulationCrash { previous: previous, current: current });
        }
        census.last_population_check_cells = current;
    }
    let ghost after_population = notes@;
    assert(after_population =~= after_energy + population_notes(c0.last_population_check_cells, sample.total_cells, sample.population_check_due));

    if sample.lysis_capable > 0 && !census.first_lysis_reported {
        census.first_lysis_reported = true;
        notes.push(ChronicleNote::LysisAppeared { cells: sample.lysis_capable });
    }
    let ghost after_lysis = notes@;
    assert(after_lysis =~= after_population + (if sample.lysis_capable > 0 && !c0.first_lysis_reported {
        seq![ChronicleNote::LysisAppeared { cells: sample.lysis_capable }] } else { Seq::empty() }));

    if sample.segmented > 0 && !census.first_segmented_reported {
        census.first_segmented_reported = true;
        notes.push(ChronicleNote::SegmentationAppeared { cells: sample.segmented });
    }
    assert(notes@ =~= after_lysis + (if sample.segmented > 0 && !c0.first_segmented_reported {
        seq![ChronicleNote::SegmentationAppeared { cells: sample.segmented }] } else { Seq::empty() }));
    notes
}

/// `after` is the census `before` after folding in `sample`, and `notes`
/// are the notes it calls for: on the first sample the species records
/// start over and only the start of the ecosystem is noted; on later samples
/// the regular notes are made and the dominant species, energy state,
/// population reference and first-trait flags move on.
pub open spec fn census_updated(
    before: ChronicleCensus,
    after: ChronicleCensus,
    sample: CensusSample,
    first_sample: bool,
    notes: Seq<ChronicleNote>,
) -> bool {
    &&& after.species_records@ == records_after(before.species_records@, sample.counts@, first_sample)
    &&& first_sample ==> {
        &&& notes == seq![ChronicleNote::Started {
            cells: sample.total_cells,
            food: sample.food,
            species_total: sample.counts.len(),
        }]
        &&& after.last_population_check_cells == sample.total_cells
        &&& after.dominant_species == before.dominant_species
        &&& after.energy_state == before.energy_state
        &&& after.first_lysis_reported == before.first_lysis_reported
        &&& after.first_segmented_reported == before.first_segmented_reported
    }
    &&& !first_sample ==> {
        &&& notes == regular_notes(before, sample)
        &&& after.dominant_species == dominant_after(before.dominant_species, sample.counts@, sample.total_cells)
        &&& after.energy_state == sample.energy_state
        &&& after.last_population_check_cells == (if sample.population_check_due { sample.total_cells } else { before.last_population_check_cells })
        &&& after.first_lysis_reported == (before.first_lysis_reported || sample.lysis_capable > 0)
        &&& after.first_segmented_reported == (before.first_segmented_reported || sample.segmented > 0)
    }
}

/// Folds one world sample into the census and returns the notes it calls
/// for. The first sample of a run only records the species and notes the
/// start of the ecosystem; later samples note new species, new peaks,
/// extinctions, a new dominant species, energy balance changes, population
/// surges and crashes (when the check is due) and the first lysis-capable
/// and multi-section cells.
pub fn update_chronicle_census(census: &mut ChronicleCensus, sample: &CensusSample, first_sample: bool) -> (notes: Vec<ChronicleNote>)
    requires
        old(census).inv(),
        distinct_counts(sample.counts@),
    ensures
        final(census).inv(),
        census_updated(*old(census), *final(census), *sample, first_sample, notes@),
{
    proof {
        lemma_records_stay_distinct(census.species_records@, sample.counts@, first_sample);
        lemma_peaks_cover_alive(census.species_records@, sample.counts@, first_sample);
    }
    let (counted, mut fresh) = census_counts(&sample.counts, &census.species_records);
    let extinct = census_update_records(&mut census.species_records, &sample.counts, first_sample);
    census.species_records.append(&mut fresh);
    if first_sample {
        census.last_population_check_cells = sample.total_cells;
        let mut notes: Vec<ChronicleNote> = Vec::new();
        notes.push(ChronicleNote::Started {
            cells: sample.total_cells,
            food: sample.food,
            species_total: sample.counts.len(),
        });
        assert(notes@ =~= seq![ChronicleNote::Started {
            cells: sample.total_cells,
            food: sample.food,
            species_total: sample.counts.len(),
        }]);
        return notes;
    }
    let ghost c0 = *old(census);
    let mut notes = counted;
    let mut extinct = extinct;
    notes.append(&mut extinct);
    let mut dominant_part = census_dominant(&mut census.dominant_species, &sample.counts, sample.total_cells);
    notes.append(&mut dominant_part);
    let ghost census_mid = *census;
    assert(census_mid.energy_state == c0.energy_state);
    let mut trends = census_trends(census, sample);
    assert(trend_notes(census_mid, *sample) == trend_notes(c0, *sample));
    notes.append(&mut trends);
    assert(notes@ =~= regular_notes(c0, *sample));
    notes
}


/// How many cells have at least two body sections.
pub open spec fn segmented_cells(section_counts: Seq<u8>) -> int
    decreases section_counts.len(),
{
    if section_counts.len() == 0 {
        0
    } else {
        segmented_cells(section_counts.drop_last()) + if section_counts.last() >= 2 { 1int } else { 0 }
    }
}

/// How many of the flags are set.
pub open spec fn flagged_cells(flags: Seq<bool>) -> int
    decreases flags.len(),
{
    if flags.len() == 0 {
        0
    } else {
        flagged_cells(flags.drop_last()) + if flags.last() { 1int } else { 0 }
    }
}

/// The species of a run of counts, in order.
pub open spec fn counted_species(counts: Seq<SpeciesCount>) -> Seq<u32> {
    counts.map_values(|c: SpeciesCount| c.species)
}

/// The living cells of each species of the world, from the species of every
/// cell: one count per species, in the order of their first cell.
pub fn species_counts(cell_species: &Vec<u32>) -> (counts: Vec<SpeciesCount>)
    ensures
        counted_species(counts@) == species_in_order(cell_species@),
        forall|k: int| 0 <= k < counts.len() ==>
            #[trigger] counts@[k].alive == species_cells(cell_species@, counts@[k].species).len(),
        distinct_counts(counts@),
{
    let tallies = tally_species(cell_species);
    let mut counts: Vec<SpeciesCount> = Vec::new();
    let mut i: usize = 0;
    while i < tallies.len()
        invariant
            i <= tallies.len(),
            counts.len() == i,
            forall|k: int| 0 <= k < i ==> #[trigger] counts@[k].species == tallies@[k].species && counts@[k].alive == tallies@[k].alive,
        decreases tallies.len() - i,
    {
        counts.push(SpeciesCount { species: tallies[i].species, alive: tallies[i].alive });
        i = i + 1;
    }
    proof {
        assert(counted_species(counts@) =~= tallied_species(tallies@));
        assert forall|a: int, b: int| 0 <= a < counts.len() && 0 <= b < counts.len() && a != b
            implies #[trigger] counts@[a].species != #[trigger] counts@[b].species by {
            assert(counts@[a].species == tallies@[a].species && counts@[b].species == tallies@[b].species);
        }
    }
    counts
}

/// The census sample of a world: its species counts and cell count, the
/// cells with several sections and those able to attack by lysis, with the
/// food count, the energy state and whether the population check is due.
pub fn census_sample(
    cell_species: &Vec<u32>,
    section_counts: &Vec<u8>,
    lysis_capable: &Vec<bool>,
    food: usize,
    energy_state: ChronicleEnergyState,
    population_check_due: bool,
) -> (sample: CensusSample)
    requires
        section_counts.len() == cell_species.len(),
        lysis_capable.len() == cell_species.len(),
    ensures
        counted_species(sample.counts@) == species_in_order(cell_species@),
        forall|k: int| 0 <= k < sample.counts.len() ==>
            #[trigger] sample.counts@[k].alive == species_cells(cell_species@, sample.counts@[k].species).len(),
        distinct_counts(sample.counts@),
        sample.total_cells == cell_species.len(),
        sample.segmented == segmented_cells(section_counts@),
        sample.lysis_capable == flagged_cells(lysis_capable@),
        sample.food == food,
        sample.energy_state == energy_state,
        sample.population_check_due == population_check_due,
{
    let counts = species_counts(cell_species);
    let mut segmented: usize = 0;
    let mut lysis: usize = 0;
    let mut i: usize = 0;
    while i < cell_species.len()
        invariant
            i <= cell_species.len(),
            section_counts.len() == cell_species.len(),
            lysis_capable.len() == cell_species.len(),
            segmented <= i,
            lysis <= i,
            segmented == segmented_cells(section_counts@.take(i as int)),
            lysis == flagged_cells(lysis_capable@.take(i as int)),
        decreases cell_species.len() - i,
    {
        assert(section_counts@.take(i + 1).drop_last() =~= section_counts@.take(i as int));
        assert(lysis_capable@.take(i + 1).drop_last() =~= lysis_capable@.take(i as int));
        if section_counts[i] >= 2 {
            segmented = segmented + 1;
        }
        if lysis_capable[i] {
            lysis = lysis + 1;
        }
        i = i + 1;
    }
    assert(section_counts@.take(cell_species.len() as int) =~= section_counts@);
    assert(lysis_capable@.take(cell_species.len() as int) =~= lysis_capable@);
    CensusSample {
        counts,
        total_cells: cell_species.len(),
        food,
        energy_state,
        population_check_due,
        lysis_capable: lysis,
        segmented,
    }
}

} // verus!
