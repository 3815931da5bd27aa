use vstd::prelude::*;

verus! {

/// Number of species cards in one ledger row.
pub const SPECIES_LEDGER_COLUMNS: usize = 3;

/// Extra rows rendered above and below the visible window.
pub const SPECIES_LEDGER_VIRTUAL_BUFFER_ROWS: usize = 2;

/// Ceiling division of `a` by `b`.
pub open spec fn div_ceil(a: int, b: int) -> int {
    (a + b - 1) / b
}

/// Rows the ledger grid occupies: one row per started group of columns,
/// and at least one row even when there are no species.
pub open spec fn ledger_rows(total_species: int) -> int {
    let rows = div_ceil(total_species, SPECIES_LEDGER_COLUMNS as int);
    if rows < 1 { 1 } else { rows }
}

/// Number of grid rows needed to show `total_species` cards.
pub fn species_ledger_row_count(total_species: usize) -> (rows: usize)
    ensures
        rows == ledger_rows(total_species as int),
        rows >= 1,
        rows * SPECIES_LEDGER_COLUMNS >= total_species,
{
    let rows = total_species / SPECIES_LEDGER_COLUMNS + if total_species % SPECIES_LEDGER_COLUMNS == 0 { 0 } else { 1 };
    if rows < 1 { 1 } else { rows }
}

/// The range of card indices to build: the rows in view plus a buffer of
/// rows above and below, clipped to the grid. `first_visible_row` is the
/// row at the top of the view and `view_rows` the number of rows the view
/// can show.
pub open spec fn visible_index_range(total_species: int, first_visible_row: int, view_rows: int) -> (int, int) {
    if total_species == 0 {
        (0, 0)
    } else {
        let buffer = SPECIES_LEDGER_VIRTUAL_BUFFER_ROWS as int;
        let start_row = if first_visible_row > buffer { first_visible_row - buffer } else { 0 };
        let visible_rows = view_rows + buffer * 2 + 1;
        let end_row = if start_row + visible_rows < ledger_rows(total_species) {
            start_row + visible_rows
        } else {
            ledger_rows(total_species)
        };
        let start = start_row * SPECIES_LEDGER_COLUMNS as int;
        let end = if end_row * (SPECIES_LEDGER_COLUMNS as int) < total_species {
            end_row * SPECIES_LEDGER_COLUMNS as int
        } else {
            total_species
        };
        (start, end)
    }
}

/// Card indices `(start, end)` of the ledger to build for the given scroll
/// position, expressed in whole rows.
pub fn species_ledger_visible_index_range(total_species: usize, first_visible_row: usize, view_rows: usize) -> (range: (usize, usize))
    requires
        first_visible_row <= usize::MAX / 8,
        view_rows <= usize::MAX / 8,
    ensures
        (range.0 as int, range.1 as int) == visible_index_range(total_species as int, first_visible_row as int, view_rows as int),
{
    if total_species == 0 {
        return (0, 0);
    }
    let row_count = species_ledger_row_count(total_species);
    let start_row = first_visible_row.saturating_sub(SPECIES_LEDGER_VIRTUAL_BUFFER_ROWS);
    let visible_rows = view_rows + SPECIES_LEDGER_VIRTUAL_BUFFER_ROWS * 2 + 1;
    let end_row = if start_row + visible_rows < row_count { start_row + visible_rows } else { row_count };
    let start = start_row * SPECIES_LEDGER_COLUMNS;
    let end_cards = end_row * SPECIES_LEDGER_COLUMNS;
    let end = if end_cards < total_species { end_cards } else { total_species };
    (start, end)
}

/// The ledger never builds more cards than the rows in view plus the buffer
/// rows, and the cards it builds cover every card in view, including the row
/// just below the last whole row in view, which a partial scroll reveals.
pub proof fn lemma_visible_range_is_bounded(total_species: int, first_visible_row: int, view_rows: int)
    requires
        total_species >= 0,
        first_visible_row >= 0,
        view_rows >= 0,
    ensures
        ({
            let (start, end) = visible_index_range(total_species, first_visible_row, view_rows);
            &&& end - start <= (view_rows + 2 * SPECIES_LEDGER_VIRTUAL_BUFFER_ROWS + 1) * SPECIES_LEDGER_COLUMNS
            &&& end <= total_species
            &&& start <= first_visible_row * SPECIES_LEDGER_COLUMNS
            &&& start % (SPECIES_LEDGER_COLUMNS as int) == 0
            &&& total_species > 0 ==> end >= if (first_visible_row + view_rows + 1) * 3 < total_species {
                (first_visible_row + view_rows + 1) * 3 } else { total_species }
        }),
{
    let (start, end) = visible_index_range(total_species, first_visible_row, view_rows);
    if total_species > 0 {
        let rows = ledger_rows(total_species);
        assert(rows * 3 >= total_species);
    }
}

/// Living cells of one species at a ledger refresh.
#[derive(Clone, Copy, PartialEq, Eq, Structural, Debug)]
pub struct SpeciesTally {
    pub species: u32,
    pub alive: usize,
}

/// A card of the species ledger: the species, its living cells and the
/// change since the previous refresh.
#[derive(Clone, Copy, PartialEq, Eq, Structural, Debug)]
pub struct SpeciesLedgerEntry {
    pub species: u32,
    pub alive: usize,
    pub alive_delta: isize,
}

/// The ledger cards in display order, and a revision that changes whenever
/// the order changes.
pub struct SpeciesLedgerStats {
    pub entries: Vec<SpeciesLedgerEntry>,
    pub revision: u64,
}

/// No species appears twice.
pub open spec fn distinct_entries(entries: Seq<SpeciesLedgerEntry>) -> bool {
    forall|i: int, j: int| 0 <= i < entries.len() && 0 <= j < entries.len() && i != j
        ==> #[trigger] entries[i].species != #[trigger] entries[j].species
}

/// No species is tallied twice.
pub open spec fn distinct_tallies(tallies: Seq<SpeciesTally>) -> bool {
    forall|i: int, j: int| 0 <= i < tallies.len() && 0 <= j < tallies.len() && i != j
        ==> #[trigger] tallies[i].species != #[trigger] tallies[j].species
}

/// Every count fits in an `isize`.
pub open spec fn counts_fit(entries: Seq<SpeciesLedgerEntry>) -> bool {
    forall|i: int| 0 <= i < entries.len() ==> #[trigger] entries[i].alive <= isize::MAX
}

impl SpeciesLedgerStats {
    pub open spec fn inv(&self) -> bool {
        &&& distinct_entries(self.entries@)
        &&& counts_fit(self.entries@)
    }

    /// An empty ledger at revision 0.
    pub fn new() -> (stats: Self)
        ensures
            stats.entries@.len() == 0,
            stats.revision == 0,
            stats.inv(),
    {
        SpeciesLedgerStats { entries: Vec::new(), revision: 0 }
    }
}

/// Index of `species` among the entries (the last one, should it repeat).
pub open spec fn entry_position(entries: Seq<SpeciesLedgerEntry>, species: u32) -> Option<int>
    decreases entries.len(),
{
    if entries.len() == 0 {
        None
    } else if entries.last().species == species {
        Some(entries.len() - 1)
    } else {
        entry_position(entries.drop_last(), species)
    }
}

/// The card of a tallied species: the change is measured against the
/// previous refresh, and is zero for a species that was not shown before.
pub open spec fn entry_for(tally: SpeciesTally, previous: Seq<SpeciesLedgerEntry>) -> SpeciesLedgerEntry {
    let before = match entry_position(previous, tally.species) {
        Some(p) => previous[p].alive as int,
        None => tally.alive as int,
    };
    SpeciesLedgerEntry { species: tally.species, alive: tally.alive, alive_delta: (tally.alive - before) as isize }
}

/// Sort rank of a species when the previous order is kept: its previous
/// position, or after all of them when it is new.
pub open spec fn kept_rank(previous: Seq<SpeciesLedgerEntry>, species: u32) -> int {
    match entry_position(previous, species) {
        Some(p) => p,
        None => usize::MAX as int,
    }
}

/// Whether card `a` comes before card `b`. On a re-sort the order is by
/// living cells, most first, then by species id; otherwise cards keep their
/// previous order and new ones follow, ordered the same way.
pub open spec fn comes_before(a: SpeciesLedgerEntry, b: SpeciesLedgerEntry, previous: Seq<SpeciesLedgerEntry>, resort: bool) -> bool {
    let by_count = a.alive > b.alive || (a.alive == b.alive && a.species < b.species);
    if resort {
        by_count
    } else {
        let ra = kept_rank(previous, a.species);
        let rb = kept_rank(previous, b.species);
        ra < rb || (ra == rb && by_count)
    }
}

/// Cards strictly ordered by `comes_before`.
pub open spec fn ordered(entries: Seq<SpeciesLedgerEntry>, previous: Seq<SpeciesLedgerEntry>, resort: bool) -> bool {
    forall|i: int, j: int| 0 <= i < j < entries.len() ==> comes_before(#[trigger] entries[i], #[trigger] entries[j], previous, resort)
}

/// The cards of the tallied species, in tally order.
pub open spec fn tally_cards(tallies: Seq<SpeciesTally>, previous: Seq<SpeciesLedgerEntry>) -> Seq<SpeciesLedgerEntry> {
    tallies.map_values(|t: SpeciesTally| entry_for(t, previous))
}

/// The cards hold exactly the tallied species, each with its change: they
/// are a permutation of the tally cards.
pub open spec fn same_cards(entries: Seq<SpeciesLedgerEntry>, tallies: Seq<SpeciesTally>, previous: Seq<SpeciesLedgerEntry>) -> bool {
    entries.to_multiset() == tally_cards(tallies, previous).to_multiset()
}

/// The species of each card, in order.
pub open spec fn species_order(entries: Seq<SpeciesLedgerEntry>) -> Seq<u32> {
    entries.map_values(|e: SpeciesLedgerEntry| e.species)
}

proof fn lemma_order_total(a: SpeciesLedgerEntry, b: SpeciesLedgerEntry, previous: Seq<SpeciesLedgerEntry>, resort: bool)
    requires
        a.species != b.species,
    ensures
        comes_before(a, b, previous, resort) || comes_before(b, a, previous, resort),
        !(comes_before(a, b, previous, resort) && comes_before(b, a, previous, resort)),
{
}

proof fn lemma_order_transitive(a: SpeciesLedgerEntry, b: SpeciesLedgerEntry, c: SpeciesLedgerEntry, previous: Seq<SpeciesLedgerEntry>, resort: bool)
    requires
        comes_before(a, b, previous, resort),
        comes_before(b, c, previous, resort),
    ensures
        comes_before(a, c, previous, resort),
{
}

fn find_entry_position(entries: &Vec<SpeciesLedgerEntry>, species: u32) -> (found: Option<usize>)
    ensures
        found.is_none() ==> entry_position(entries@, species).is_none(),
        found.is_some() ==> found.unwrap() < entries.len() && entry_position(entries@, species) == Some(found.unwrap() as int),
{
    let mut i = entries.len();
    assert(entries@.take(i as int) =~= entries@);
    while i > 0
        invariant
            i <= entries.len(),
            entry_position(entries@, species) == entry_position(entries@.take(i as int), species),
        decreases i,
    {
        assert(entries@.take(i as int).drop_last() =~= entries@.take(i - 1));
        if entries[i - 1].species == species {
            return Some(i - 1);
        }
        i = i - 1;
    }
    None
}

/// Position of `species` among the ledger cards, if it is shown.
pub fn species_entry_index(stats: &SpeciesLedgerStats, species: u32) -> (found: Option<usize>)
    ensures
        found.is_none() ==> entry_position(stats.entries@, species).is_none(),
        found.is_some() ==> found.unwrap() < stats.entries.len() && entry_position(stats.entries@, species) == Some(found.unwrap() as int),
{
    find_entry_position(&stats.entries, species)
}

fn card_with_rank(tally: SpeciesTally, previous: &Vec<SpeciesLedgerEntry>) -> (card: (SpeciesLedgerEntry, usize))
    requires
        counts_fit(previous@),
        tally.alive <= isize::MAX,
    ensures
        card.0 == entry_for(tally, previous@),
        card.1 as int == kept_rank(previous@, tally.species),
{
    match find_entry_position(previous, tally.species) {
        Some(p) => {
            let before = previous[p].alive;
            let entry = SpeciesLedgerEntry {
                species: tally.species,
                alive: tally.alive,
                alive_delta: tally.alive as isize - before as isize,
            };
            (entry, p)
        },
        None => {
            let entry = SpeciesLedgerEntry { species: tally.species, alive: tally.alive, alive_delta: 0 };
            (entry, usize::MAX)
        },
    }
}

fn card_before(a: &(SpeciesLedgerEntry, usize), b: &(SpeciesLedgerEntry, usize), resort: bool, previous: Ghost<Seq<SpeciesLedgerEntry>>) -> (before: bool)
    requires
        a.1 as int == kept_rank(previous@, a.0.species),
        b.1 as int == kept_rank(previous@, b.0.species),
    ensures
        before == comes_before(a.0, b.0, previous@, resort),
{
    let by_count = a.0.alive > b.0.alive || (a.0.alive == b.0.alive && a.0.species < b.0.species);
    if resort {
        by_count
    } else {
        a.1 < b.1 || (a.1 == b.1 && by_count)
    }
}

pub open spec fn cards_of(cards: Seq<(SpeciesLedgerEntry, usize)>) -> Seq<SpeciesLedgerEntry> {
    cards.map_values(|c: (SpeciesLedgerEntry, usize)| c.0)
}

/// Inserts `card` at its place among cards already in order.
fn insert_card(cards: &mut Vec<(SpeciesLedgerEntry, usize)>, card: (SpeciesLedgerEntry, usize), resort: bool, previous: Ghost<Seq<SpeciesLedgerEntry>>)
    requires
        card.1 as int == kept_rank(previous@, card.0.species),
        forall|k: int| 0 <= k < old(cards).len() ==> (#[trigger] old(cards)@[k]).1 as int == kept_rank(previous@, old(cards)@[k].0.species),
        forall|k: int| 0 <= k < old(cards).len() ==> (#[trigger] old(cards)@[k]).0.species != card.0.species,
        ordered(cards_of(old(cards)@), previous@, resort),
    ensures
        exists|p: int| 0 <= p <= old(cards).len() && final(cards)@ == old(cards)@.insert(p, card),
        forall|k: int| 0 <= k < final(cards).len() ==> (#[trigger] final(cards)@[k]).1 as int == kept_rank(previous@, final(cards)@[k].0.species),
        ordered(cards_of(final(cards)@), previous@, resort),
{
    let ghost prev = previous@;
    let mut p: usize = 0;
    while p < cards.len() && !card_before(&card, &cards[p], resort, Ghost(prev))
        invariant
            p <= cards.len(),
            card.1 as int == kept_rank(prev, card.0.species),
            forall|k: int| 0 <= k < cards.len() ==> (#[trigger] cards@[k]).1 as int == kept_rank(prev, cards@[k].0.species),
            forall|k: int| 0 <= k < p ==> !comes_before(card.0, #[trigger] cards@[k].0, prev, resort),
        decreases cards.len() - p,
    {
        p = p + 1;
    }
    let ghost old_cards = cards@;
    cards.insert(p, card);
    assert(cards@ == old_cards.insert(p as int, card));
    assert forall|a: int, b: int| 0 <= a < b < cards.len() implies
        comes_before(#[trigger] cards_of(cards@)[a], #[trigger] cards_of(cards@)[b], prev, resort) by {
        let ca = cards@[a].0;
        let cb = cards@[b].0;
        assert(cards_of(cards@)[a] == ca && cards_of(cards@)[b] == cb);
        if a < p && b < p {
            assert(cards_of(old_cards)[a] == ca && cards_of(old_cards)[b] == cb);
        } else if a < p && b == p {
            assert(old_cards[a].0.species != card.0.species);
            lemma_order_total(ca, card.0, prev, resort);
        } else if a < p && b > p {
            assert(cards_of(old_cards)[a] == ca && cards_of(old_cards)[b - 1] == cb);
        } else if a == p {
            assert(cb == old_cards[b - 1].0);
            assert(comes_before(card.0, old_cards[p as int].0, prev, resort));
            if b - 1 > p {
                assert(cards_of(old_cards)[p as int] == old_cards[p as int].0);
                assert(cards_of(old_cards)[b - 1] == cb);
                lemma_order_transitive(card.0, old_cards[p as int].0, cb, prev, resort);
            }
        } else {
            assert(cards_of(old_cards)[a - 1] == ca && cards_of(old_cards)[b - 1] == cb);
        }
    }
}

proof fn lemma_new_species_differs(
    cards: Seq<SpeciesLedgerEntry>,
    tallies: Seq<SpeciesTally>,
    i: int,
    prev: Seq<SpeciesLedgerEntry>,
)
    requires
        0 <= i < tallies.len(),
        distinct_tallies(tallies),
        cards.to_multiset() == tally_cards(tallies.take(i), prev).to_multiset(),
    ensures
        forall|k: int| 0 <= k < cards.len() ==> (#[trigger] cards[k]).species != tallies[i].species,
{
    let t = tally_cards(tallies.take(i), prev);
    assert forall|k: int| 0 <= k < cards.len() implies (#[trigger] cards[k]).species != tallies[i].species by {
        assert(cards.contains(cards[k]));
        vstd::seq_lib::to_multiset_contains(cards, cards[k]);
        vstd::seq_lib::to_multiset_contains(t, cards[k]);
        let j = choose|j: int| 0 <= j < t.len() && t[j] == cards[k];
        assert(t[j] == entry_for(tallies[j], prev));
        assert(tallies[j].species != tallies[i].species);
    }
}

fn strip_ranks(cards: &Vec<(SpeciesLedgerEntry, usize)>) -> (entries: Vec<SpeciesLedgerEntry>)
    ensures
        entries@ == cards_of(cards@),
{
    let mut entries: Vec<SpeciesLedgerEntry> = Vec::new();
    let mut k: usize = 0;
    while k < cards.len()
        invariant
            k <= cards.len(),
            entries@ == cards_of(cards@).take(k as int),
        decreases cards.len() - k,
    {
        entries.push(cards[k].0);
        assert(cards_of(cards@).take(k + 1) =~= cards_of(cards@).take(k as int).push(cards@[k as int].0));
        k = k + 1;
    }
    assert(entries@ =~= cards_of(cards@));
    entries
}

/// The tallied species as ledger cards in display order.
fn order_cards(tallies: &Vec<SpeciesTally>, previous: &Vec<SpeciesLedgerEntry>, resort: bool) -> (entries: Vec<SpeciesLedgerEntry>)
    requires
        distinct_tallies(tallies@),
        counts_fit(previous@),
        forall|j: int| 0 <= j < tallies.len() ==> #[trigger] tallies@[j].alive <= isize::MAX,
    ensures
        ordered(entries@, previous@, resort),
        same_cards(entries@, tallies@, previous@),
{
    let ghost prev = previous@;
    let mut cards: Vec<(SpeciesLedgerEntry, usize)> = Vec::new();
    let mut i: usize = 0;
    assert(cards_of(cards@) =~= tally_cards(tallies@.take(0), prev));
    while i < tallies.len()
        invariant
            i <= tallies.len(),
            prev == previous@,
            distinct_tallies(tallies@),
            counts_fit(previous@),
            forall|j: int| 0 <= j < tallies.len() ==> #[trigger] tallies@[j].alive <= isize::MAX,
            forall|k: int| 0 <= k < cards.len() ==> (#[trigger] cards@[k]).1 as int == kept_rank(prev, cards@[k].0.species),
            ordered(cards_of(cards@), prev, resort),
            cards_of(cards@).to_multiset() == tally_cards(tallies@.take(i as int), prev).to_multiset(),
        decreases tallies.len() - i,
    {
        let card = card_with_rank(tallies[i], previous);
        let ghost old_cards = cards@;
        proof {
            lemma_new_species_differs(cards_of(old_cards), tallies@, i as int, prev);
            assert forall|k: int| 0 <= k < old_cards.len() implies (#[trigger] old_cards[k]).0.species != card.0.species by {
                assert(cards_of(old_cards)[k] == old_cards[k].0);
            }
        }
        insert_card(&mut cards, card, resort, Ghost(prev));
        proof {
            let p = choose|p: int| 0 <= p <= old_cards.len() && cards@ == old_cards.insert(p, card);
            assert(cards_of(cards@) =~= cards_of(old_cards).insert(p, card.0));
            vstd::seq_lib::to_multiset_insert(cards_of(old_cards), p, card.0);
            assert(tally_cards(tallies@.take(i + 1), prev) =~= tally_cards(tallies@.take(i as int), prev).push(card.0));
            vstd::seq_lib::to_multiset_build(tally_cards(tallies@.take(i as int), prev), card.0);
        }
        i = i + 1;
    }
    assert(tallies@.take(tallies.len() as int) =~= tallies@);
    strip_ranks(&cards)
}

proof fn lemma_cards_come_from_tallies(entries: Seq<SpeciesLedgerEntry>, tallies: Seq<SpeciesTally>, prev: Seq<SpeciesLedgerEntry>, k: int)
    requires
        same_cards(entries, tallies, prev),
        0 <= k < entries.len(),
    ensures
        exists|j: int| 0 <= j < tallies.len() && entries[k] == #[trigger] entry_for(tallies[j], prev),
{
    let t = tally_cards(tallies, prev);
    assert(entries.contains(entries[k]));
    vstd::seq_lib::to_multiset_contains(entries, entries[k]);
    vstd::seq_lib::to_multiset_contains(t, entries[k]);
    let j = choose|j: int| 0 <= j < t.len() && t[j] == entries[k];
    assert(t[j] == entry_for(tallies[j], prev));
}

/// Ordered ledger cards of distinct tallies name each species once.
proof fn lemma_ordered_cards_distinct(entries: Seq<SpeciesLedgerEntry>, tallies: Seq<SpeciesTally>, prev: Seq<SpeciesLedgerEntry>, resort: bool)
    requires
        distinct_tallies(tallies),
        same_cards(entries, tallies, prev),
        ordered(entries, prev, resort),
        forall|j: int| 0 <= j < tallies.len() ==> #[trigger] tallies[j].alive <= isize::MAX,
    ensures
        distinct_entries(entries),
        counts_fit(entries),
{
    assert forall|a: int, b: int| 0 <= a < entries.len() && 0 <= b < entries.len() && a != b
        implies #[trigger] entries[a].species != #[trigger] entries[b].species by {
        lemma_cards_come_from_tallies(entries, tallies, prev, a);
        lemma_cards_come_from_tallies(entries, tallies, prev, b);
        let ja = choose|j: int| 0 <= j < tallies.len() && entries[a] == #[trigger] entry_for(tallies[j], prev);
        let jb = choose|j: int| 0 <= j < tallies.len() && entries[b] == #[trigger] entry_for(tallies[j], prev);
        if entries[a].species == entries[b].species {
            assert(ja == jb);
            if a < b {
                assert(comes_before(entries[a], entries[b], prev, resort));
            } else {
                assert(comes_before(entries[b], entries[a], prev, resort));
            }
        }
    }
    assert forall|k: int| 0 <= k < entries.len() implies #[trigger] entries[k].alive <= isize::MAX by {
        lemma_cards_come_from_tallies(entries, tallies, prev, k);
    }
}

fn same_species_order(a: &Vec<SpeciesLedgerEntry>, b: &Vec<SpeciesLedgerEntry>) -> (same: bool)
    ensures
        same == (species_order(a@) == species_order(b@)),
{
    if a.len() != b.len() {
        assert(species_order(a@).len() != species_order(b@).len());
        return false;
    }
    let mut i: usize = 0;
    while i < a.len()
        invariant
            a.len() == b.len(),
            i <= a.len(),
            forall|k: int| 0 <= k < i ==> #[trigger] a@[k].species == b@[k].species,
        decreases a.len() - i,
    {
        if a[i].species != b[i].species {
            assert(species_order(a@)[i as int] != species_order(b@)[i as int]);
            return false;
        }
        i = i + 1;
    }
    assert(species_order(a@) =~= species_order(b@));
    true
}

/// Refreshes the ledger from new tallies. The cards are re-sorted by living
/// cells (most first, then species id) when the ledger was empty or the
/// sort interval has elapsed; otherwise they keep their previous order with
/// new species after them. The revision advances (wrapping) when the order
/// of species changes. Returns whether a re-sort took place.
pub fn update_species_ledger_stats(stats: &mut SpeciesLedgerStats, tallies: &Vec<SpeciesTally>, sort_interval_elapsed: bool) -> (resorted: bool)
    requires
        old(stats).inv(),
        distinct_tallies(tallies@),
        forall|j: int| 0 <= j < tallies.len() ==> #[trigger] tallies@[j].alive <= isize::MAX,
    ensures
        resorted == (old(stats).entries.len() == 0 || sort_interval_elapsed),
        ordered(final(stats).entries@, old(stats).entries@, resorted),
        same_cards(final(stats).entries@, tallies@, old(stats).entries@),
        final(stats).revision == (if species_order(final(stats).entries@) == species_order(old(stats).entries@) {
            old(stats).revision
        } else if old(stats).revision == u64::MAX {
            0
        } else {
            (old(stats).revision + 1) as u64
        }),
        final(stats).inv(),
{
    let resort = stats.entries.len() == 0 || sort_interval_elapsed;
    let entries = order_cards(tallies, &stats.entries, resort);
    proof {
        lemma_ordered_cards_distinct(entries@, tallies@, stats.entries@, resort);
    }
    if !same_species_order(&entries, &stats.entries) {
        stats.revision = stats.revision.wrapping_add(1);
    }
    stats.entries = entries;
    resort
}

proof fn lemma_ordered_equal(a: Seq<SpeciesLedgerEntry>, b: Seq<SpeciesLedgerEntry>, previous: Seq<SpeciesLedgerEntry>, resort: bool)
    requires
        a.to_multiset() == b.to_multiset(),
        ordered(a, previous, resort),
        ordered(b, previous, resort),
    ensures
        a == b,
    decreases a.len(),
{
    vstd::seq_lib::to_multiset_len(a);
    vstd::seq_lib::to_multiset_len(b);
    if a.len() > 0 {
        let x = a[0];
        let y = b[0];
        assert(a.contains(x));
        vstd::seq_lib::to_multiset_contains(a, x);
        vstd::seq_lib::to_multiset_contains(b, x);
        assert(b.contains(y));
        vstd::seq_lib::to_multiset_contains(b, y);
        vstd::seq_lib::to_multiset_contains(a, y);
        if x != y {
            let ix = choose|i: int| 0 <= i < b.len() && b[i] == x;
            let iy = choose|i: int| 0 <= i < a.len() && a[i] == y;
            assert(comes_before(b[0], b[ix], previous, resort));
            assert(comes_before(a[0], a[iy], previous, resort));
            lemma_order_transitive(x, y, x, previous, resort);
        }
        let a1 = a.drop_first();
        let b1 = b.drop_first();
        vstd::seq_lib::to_multiset_remove(a, 0);
        vstd::seq_lib::to_multiset_remove(b, 0);
        assert(a.remove(0) =~= a1);
        assert(b.remove(0) =~= b1);
        assert forall|i: int, j: int| 0 <= i < j < a1.len() implies comes_before(#[trigger] a1[i], #[trigger] a1[j], previous, resort) by {
            assert(a1[i] == a[i + 1] && a1[j] == a[j + 1]);
        }
        assert forall|i: int, j: int| 0 <= i < j < b1.len() implies comes_before(#[trigger] b1[i], #[trigger] b1[j], previous, resort) by {
            assert(b1[i] == b[i + 1] && b1[j] == b[j + 1]);
        }
        lemma_ordered_equal(a1, b1, previous, resort);
        assert(x == y);
        assert(a.len() == b.len());
        assert forall|i: int| 0 <= i < a.len() implies a[i] == b[i] by {
            if i > 0 {
                assert(a[i] == a1[i - 1] && b[i] == b1[i - 1]);
            }
        }
        assert(a =~= b);
    }
}

/// The order of the ledger is fully determined: two card sequences that
/// hold the same tallied cards and are both in order are equal.
pub proof fn lemma_ledger_order_is_unique(
    a: Seq<SpeciesLedgerEntry>,
    b: Seq<SpeciesLedgerEntry>,
    tallies: Seq<SpeciesTally>,
    previous: Seq<SpeciesLedgerEntry>,
    resort: bool,
)
    requires
        same_cards(a, tallies, previous),
        same_cards(b, tallies, previous),
        ordered(a, previous, resort),
        ordered(b, previous, resort),
    ensures
        a == b,
{
    lemma_ordered_equal(a, b, previous, resort);
}

/// Indices of the cells that belong to `species`, in order.
pub open spec fn species_cells(cell_species: Seq<u32>, species: u32) -> Seq<int>
    decreases cell_species.len(),
{
    if cell_species.len() == 0 {
        Seq::empty()
    } else {
        species_cells(cell_species.drop_last(), species) + if cell_species.last() == species {
            seq![cell_species.len() - 1]
        } else {
            Seq::empty()
        }
    }
}

/// The species of the cells, each once, in the order of their first cell.
pub open spec fn species_in_order(cell_species: Seq<u32>) -> Seq<u32>
    decreases cell_species.len(),
{
    if cell_species.len() == 0 {
        Seq::empty()
    } else {
        let earlier = species_in_order(cell_species.drop_last());
        if earlier.contains(cell_species.last()) { earlier } else { earlier.push(cell_species.last()) }
    }
}

/// The species of a run of tallies, in order.
pub open spec fn tallied_species(tallies: Seq<SpeciesTally>) -> Seq<u32> {
    tallies.map_values(|t: SpeciesTally| t.species)
}

/// A species is listed exactly when some cell belongs to it.
pub proof fn lemma_species_in_order(cell_species: Seq<u32>, species: u32)
    ensures
        species_in_order(cell_species).contains(species) <==> species_cells(cell_species, species).len() > 0,
    decreases cell_species.len(),
{
    if cell_species.len() > 0 {
        lemma_species_in_order(cell_species.drop_last(), species);
        let earlier = species_in_order(cell_species.drop_last());
        if !earlier.contains(cell_species.last()) && cell_species.last() == species {
            assert(earlier.push(species)[earlier.len() as int] == species);
        }
        if !earlier.contains(cell_species.last()) && earlier.contains(species) {
            let k = choose|k: int| 0 <= k < earlier.len() && earlier[k] == species;
            assert(earlier.push(cell_species.last())[k] == species);
        }
        if !earlier.contains(cell_species.last()) && earlier.push(cell_species.last()).contains(species) {
            let k = choose|k: int| 0 <= k < earlier.len() + 1 && earlier.push(cell_species.last())[k] == species;
            if k < earlier.len() {
                assert(earlier[k] == species);
            }
        }
    }
}

/// The living cells of each species, counted from the species of every
/// cell of the world: one tally per species, in the order of their first
/// cell, each with the number of cells of that species.
pub fn tally_species(cell_species: &Vec<u32>) -> (tallies: Vec<SpeciesTally>)
    ensures
        tallied_species(tallies@) == species_in_order(cell_species@),
        forall|k: int| 0 <= k < tallies.len() ==>
            #[trigger] tallies@[k].alive == species_cells(cell_species@, tallies@[k].species).len(),
        distinct_tallies(tallies@),
        forall|s: u32| tallied_species(tallies@).contains(s) <==> species_cells(cell_species@, s).len() > 0,
{
    let mut tallies: Vec<SpeciesTally> = Vec::new();
    let mut i: usize = 0;
    while i < cell_species.len()
        invariant
            i <= cell_species.len(),
            tallied_species(tallies@) == species_in_order(cell_species@.take(i as int)),
            forall|k: int| 0 <= k < tallies.len() ==>
                #[trigger] tallies@[k].alive == species_cells(cell_species@.take(i as int), tallies@[k].species).len(),
            forall|k: int| 0 <= k < tallies.len() ==> #[trigger] tallies@[k].alive <= i,
            distinct_tallies(tallies@),
        decreases cell_species.len() - i,
    {
        let c = cell_species[i];
        let ghost before = tallies@;
        let ghost prefix = cell_species@.take(i as int);
        let ghost next = cell_species@.take(i + 1);
        assert(next.drop_last() =~= prefix);
        assert(next.last() == c);
        let mut j: usize = 0;
        while j < tallies.len() && tallies[j].species != c
            invariant
                j <= tallies.len(),
                tallies@ == before,
                forall|k: int| 0 <= k < j ==> #[trigger] tallies@[k].species != c,
            decreases tallies.len() - j,
        {
            j = j + 1;
        }
        if j < tallies.len() {
            let t = tallies[j];
            tallies.set(j, SpeciesTally { species: c, alive: t.alive + 1 });
            proof {
                assert(tallied_species(before)[j as int] == c);
                assert(tallied_species(before).contains(c));
                assert(tallied_species(tallies@) =~= tallied_species(before));
                assert forall|k: int| 0 <= k < tallies.len() implies
                    #[trigger] tallies@[k].alive == species_cells(next, tallies@[k].species).len() by {
                    assert(tallies@[k].species == before[k].species);
                }
                assert forall|a: int, b: int| 0 <= a < tallies.len() && 0 <= b < tallies.len() && a != b
                    implies #[trigger] tallies@[a].species != #[trigger] tallies@[b].species by {
                    assert(tallies@[a].species == before[a].species && tallies@[b].species == before[b].species);
                }
            }
        } else {
            tallies.push(SpeciesTally { species: c, alive: 1 });
            proof {
                assert(!tallied_species(before).contains(c)) by {
                    if tallied_species(before).contains(c) {
                        let k = choose|k: int| 0 <= k < before.len() && tallied_species(before)[k] == c;
                        assert(before[k].species == c);
                    }
                }
                assert(tallied_species(tallies@) =~= tallied_species(before).push(c));
                assert forall|k: int| 0 <= k < tallies.len() implies
                    #[trigger] tallies@[k].alive == species_cells(next, tallies@[k].species).len() by {
                    if k < before.len() {
                        assert(tallies@[k] == before[k]);
                        assert(before[k].species != c);
                    } else {
                        lemma_species_in_order(prefix, c);
                    }
                }
                assert forall|a: int, b: int| 0 <= a < tallies.len() && 0 <= b < tallies.len() && a != b
                    implies #[trigger] tallies@[a].species != #[trigger] tallies@[b].species by {
                    if a < before.len() && b < before.len() {
                        assert(tallies@[a] == before[a] && tallies@[b] == before[b]);
                    } else if a < before.len() {
                        assert(tallies@[a] == before[a]);
                    } else {
                        assert(tallies@[b] == before[b]);
                    }
                }
            }
        }
        i = i + 1;
    }
    assert(cell_species@.take(cell_species.len() as int) =~= cell_species@);
    proof {
        assert forall|s: u32| tallied_species(tallies@).contains(s) <==> species_cells(cell_species@, s).len() > 0 by {
            lemma_species_in_order(cell_species@, s);
        }
    }
    tallies
}

proof fn lemma_species_cells_in_range(cell_species: Seq<u32>, species: u32)
    ensures
        forall|k: int| 0 <= k < species_cells(cell_species, species).len() ==> {
            let i = #[trigger] species_cells(cell_species, species)[k];
            0 <= i < cell_species.len() && cell_species[i] == species
        },
    decreases cell_species.len(),
{
    if cell_species.len() > 0 {
        let d = cell_species.drop_last();
        lemma_species_cells_in_range(d, species);
        let c = species_cells(cell_species, species);
        assert forall|k: int| 0 <= k < c.len() implies {
            let i = #[trigger] c[k];
            0 <= i < cell_species.len() && cell_species[i] == species
        } by {
            let cd = species_cells(d, species);
            if k < cd.len() {
                assert(c[k] == cd[k]);
                assert(d[cd[k]] == cell_species[cd[k]]);
            }
        }
    }
}

/// The index of the `ordinal`-th cell (counting from 0) of `species`, if
/// the species has that many cells.
pub fn nth_cell_of_species(cell_species: &Vec<u32>, species: u32, ordinal: usize) -> (index: Option<usize>)
    ensures
        index.is_some() <==> ordinal < species_cells(cell_species@, species).len(),
        index.is_some() ==> index.unwrap() as int == species_cells(cell_species@, species)[ordinal as int],
{
    let mut seen: usize = 0;
    let mut i: usize = 0;
    while i < cell_species.len()
        invariant
            i <= cell_species.len(),
            seen as int == species_cells(cell_species@.take(i as int), species).len(),
            seen <= ordinal,
        decreases cell_species.len() - i,
    {
        assert(cell_species@.take(i + 1).drop_last() =~= cell_species@.take(i as int));
        if cell_species[i] == species {
            if seen == ordinal {
                proof {
                    assert(species_cells(cell_species@.take(i + 1), species)[ordinal as int] == i);
                    lemma_species_cells_prefix(cell_species@, species, i + 1);
                }
                return Some(i);
            }
            seen = seen + 1;
        }
        i = i + 1;
    }
    assert(cell_species@.take(cell_species.len() as int) =~= cell_species@);
    None
}

proof fn lemma_species_cells_prefix(cell_species: Seq<u32>, species: u32, n: int)
    requires
        0 <= n <= cell_species.len(),
    ensures
        species_cells(cell_species.take(n), species).len() <= species_cells(cell_species, species).len(),
        forall|k: int| 0 <= k < species_cells(cell_species.take(n), species).len() ==>
            #[trigger] species_cells(cell_species, species)[k] == species_cells(cell_species.take(n), species)[k],
    decreases cell_species.len() - n,
{
    if n < cell_species.len() {
        lemma_species_cells_prefix(cell_species, species, n + 1);
        assert(cell_species.take(n + 1).drop_last() =~= cell_species.take(n));
    } else {
        assert(cell_species.take(n) =~= cell_species);
    }
}

/// A random living cell of `species`, chosen uniformly by its rank among
/// the cells of that species; `None` when the species has no cells.
pub fn pick_random_cell_of_species(cell_species: &Vec<u32>, species: u32) -> (index: Option<usize>)
    ensures
        index.is_none() <==> species_cells(cell_species@, species).len() == 0,
        index.is_some() ==> index.unwrap() < cell_species.len() && cell_species@[index.unwrap() as int] == species,
{
    let mut alive: usize = 0;
    let mut i: usize = 0;
    while i < cell_species.len()
        invariant
            i <= cell_species.len(),
            alive as int == species_cells(cell_species@.take(i as int), species).len(),
            alive <= i,
        decreases cell_species.len() - i,
    {
        assert(cell_species@.take(i + 1).drop_last() =~= cell_species@.take(i as int));
        if cell_species[i] == species {
            alive = alive + 1;
        }
        i = i + 1;
    }
    assert(cell_species@.take(cell_species.len() as int) =~= cell_species@);
    if alive == 0 {
        return None;
    }
    let ordinal = crate::chance::random_index(0, alive);
    let index = nth_cell_of_species(cell_species, species, ordinal);
    proof {
        lemma_species_cells_in_range(cell_species@, species);
        assert(species_cells(cell_species@, species)[ordinal as int] == species_cells(cell_species@, species)[ordinal as int]);
    }
    index
}

} // verus!
