use organoids::ledger::{
    nth_cell_of_species, pick_random_cell_of_species, species_entry_index, species_ledger_row_count,
    species_ledger_visible_index_range, update_species_ledger_stats, SpeciesLedgerEntry, SpeciesLedgerStats,
    SpeciesTally, SPECIES_LEDGER_COLUMNS,
};

fn tally(species: u32, alive: usize) -> SpeciesTally {
    SpeciesTally { species, alive }
}

fn order(stats: &SpeciesLedgerStats) -> Vec<u32> {
    stats.entries.iter().map(|e| e.species).collect()
}

// A ledger view 620 pixels high spans 4 rows of 156 pixels; a scroll of
// 120 rows puts row 120 at the top.
#[test]
fn species_ledger_visible_range_keeps_dom_nodes_bounded() {
    let (start, end) = species_ledger_visible_index_range(10_000, 0, 4);
    assert_eq!(start, 0);
    assert!(end <= 30, "visible cards should stay virtualized, got {end}");

    let (scrolled_start, scrolled_end) = species_ledger_visible_index_range(10_000, 120, 4);
    assert!(scrolled_start > 0);
    assert!(scrolled_end - scrolled_start <= 30);
}

#[test]
fn visible_range_exact_values() {
    assert_eq!(species_ledger_visible_index_range(10_000, 0, 4), (0, 27));
    assert_eq!(species_ledger_visible_index_range(10_000, 120, 4), (354, 381));
    assert_eq!(species_ledger_visible_index_range(0, 5, 4), (0, 0));
    // near the end the range is clipped to the species count
    assert_eq!(species_ledger_visible_index_range(10, 3, 4), (3, 10));
    assert_eq!(species_ledger_visible_index_range(10, 1, 0), (0, 10));
}

#[test]
fn row_count_covers_every_species() {
    assert_eq!(species_ledger_row_count(0), 1);
    assert_eq!(species_ledger_row_count(1), 1);
    assert_eq!(species_ledger_row_count(3), 1);
    assert_eq!(species_ledger_row_count(4), 2);
    let rows = species_ledger_row_count(10_000);
    assert_eq!(rows, 3334);
    assert!(rows * SPECIES_LEDGER_COLUMNS >= 10_000);
}

#[test]
fn first_refresh_sorts_by_population_then_id() {
    let mut stats = SpeciesLedgerStats::new();
    let resorted = update_species_ledger_stats(&mut stats, &vec![tally(5, 3), tally(2, 9), tally(7, 9), tally(1, 1)], false);
    assert!(resorted);
    assert_eq!(order(&stats), vec![2, 7, 5, 1]);
    assert!(stats.entries.iter().all(|e| e.alive_delta == 0));
    assert_eq!(stats.revision, 1);
}

#[test]
fn refresh_between_sorts_keeps_order_and_appends_new_species() {
    let mut stats = SpeciesLedgerStats::new();
    update_species_ledger_stats(&mut stats, &vec![tally(1, 10), tally(2, 5)], false);
    assert_eq!(order(&stats), vec![1, 2]);

    // species 2 overtakes 1, 4 and 3 are new, and 1 keeps its place until the next sort
    let resorted = update_species_ledger_stats(&mut stats, &vec![tally(3, 1), tally(2, 20), tally(1, 7), tally(4, 6)], false);
    assert!(!resorted);
    assert_eq!(order(&stats), vec![1, 2, 4, 3]);
    assert_eq!(stats.entries[0], SpeciesLedgerEntry { species: 1, alive: 7, alive_delta: -3 });
    assert_eq!(stats.entries[1], SpeciesLedgerEntry { species: 2, alive: 20, alive_delta: 15 });
    assert_eq!(stats.entries[2], SpeciesLedgerEntry { species: 4, alive: 6, alive_delta: 0 });
    assert_eq!(stats.revision, 2);

    // when the sort interval elapses, the order follows the counts again
    let resorted = update_species_ledger_stats(&mut stats, &vec![tally(3, 1), tally(2, 20), tally(1, 7), tally(4, 6)], true);
    assert!(resorted);
    assert_eq!(order(&stats), vec![2, 1, 4, 3]);
    assert!(stats.entries.iter().all(|e| e.alive_delta == 0));
    assert_eq!(stats.revision, 3);
}

#[test]
fn revision_only_moves_when_the_order_changes() {
    let mut stats = SpeciesLedgerStats::new();
    update_species_ledger_stats(&mut stats, &vec![tally(1, 10), tally(2, 5)], false);
    let revision = stats.revision;
    update_species_ledger_stats(&mut stats, &vec![tally(1, 11), tally(2, 4)], true);
    assert_eq!(stats.revision, revision);
    update_species_ledger_stats(&mut stats, &vec![tally(1, 11)], false);
    assert_eq!(stats.revision, revision + 1);
    assert_eq!(species_entry_index(&stats, 1), Some(0));
    assert_eq!(species_entry_index(&stats, 2), None);
}

#[test]
fn empty_tallies_empty_the_ledger() {
    let mut stats = SpeciesLedgerStats::new();
    update_species_ledger_stats(&mut stats, &vec![tally(1, 10)], false);
    update_species_ledger_stats(&mut stats, &Vec::new(), false);
    assert!(stats.entries.is_empty());
    assert_eq!(stats.revision, 2);
}

#[test]
fn nth_cell_counts_cells_of_the_species() {
    let cells = vec![4, 7, 4, 4, 9];
    assert_eq!(nth_cell_of_species(&cells, 4, 0), Some(0));
    assert_eq!(nth_cell_of_species(&cells, 4, 2), Some(3));
    assert_eq!(nth_cell_of_species(&cells, 4, 3), None);
    assert_eq!(nth_cell_of_species(&cells, 8, 0), None);
}

#[test]
fn random_cell_belongs_to_the_species() {
    let cells = vec![4, 7, 4, 4, 9];
    for _ in 0..50 {
        let index = pick_random_cell_of_species(&cells, 4).unwrap();
        assert_eq!(cells[index], 4);
    }
    assert_eq!(pick_random_cell_of_species(&cells, 9), Some(4));
    assert_eq!(pick_random_cell_of_species(&cells, 1), None);
}

#[test]
fn every_cell_of_the_species_can_be_picked() {
    let cells = vec![4, 7, 4, 4, 9, 4];
    let mut seen = [false; 6];
    for _ in 0..400 {
        seen[pick_random_cell_of_species(&cells, 4).unwrap()] = true;
    }
    assert_eq!(seen, [true, false, true, true, false, true]);
}

#[test]
fn tallies_count_the_cells_of_each_species() {
    let cells = vec![4, 7, 4, 4, 9];
    let tallies = organoids::ledger::tally_species(&cells);
    assert_eq!(tallies, vec![tally(4, 3), tally(7, 1), tally(9, 1)]);
    let mut stats = SpeciesLedgerStats::new();
    update_species_ledger_stats(&mut stats, &tallies, false);
    assert_eq!(order(&stats), vec![4, 7, 9]);
}

// A scroll of 100 px puts row 0 at the top; a 250 px view spans 2 rows of
// 156 px, and the row below them still shows when partly scrolled.
#[test]
fn partly_scrolled_row_below_the_view_is_built() {
    let (start, end) = species_ledger_visible_index_range(10_000, 0, 2);
    assert_eq!(start, 0);
    assert!(end >= (0 + 2 + 1) * 3);
    let (start, end) = species_ledger_visible_index_range(10_000, 40, 2);
    assert!(start <= 40 * 3);
    assert!(end >= (40 + 2 + 1) * 3);
}
