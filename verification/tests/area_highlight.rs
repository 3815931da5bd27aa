use organoids::highlight::{
    press_species_area_row, update_species_area_highlight, AreaHighlightAction, SpeciesAreaHighlightState,
};
use organoids::ledger::{update_species_ledger_stats, SpeciesLedgerStats, SpeciesTally};
use organoids::ui_state::SpeciesLedgerUiState;

fn journal_on(species: u32) -> SpeciesLedgerUiState {
    SpeciesLedgerUiState {
        open: true,
        journal_open: true,
        selected_species: Some(species),
        ..SpeciesLedgerUiState::default()
    }
}

fn stats_with(species: &[u32]) -> SpeciesLedgerStats {
    let mut stats = SpeciesLedgerStats::new();
    let tallies: Vec<SpeciesTally> = species.iter().map(|&s| SpeciesTally { species: s, alive: 1 }).collect();
    update_species_ledger_stats(&mut stats, &tallies, true);
    stats
}

#[test]
fn pressing_the_area_row_requests_the_species() {
    let stats = stats_with(&[3, 4]);
    let mut highlight = SpeciesAreaHighlightState { species: None, rendered_revision: 9 };
    assert_eq!(press_species_area_row(&mut highlight, &journal_on(4), &stats), Some(4));
    assert_eq!(highlight, SpeciesAreaHighlightState { species: Some(4), rendered_revision: 0 });

    let mut other = SpeciesAreaHighlightState::default();
    assert_eq!(press_species_area_row(&mut other, &journal_on(8), &stats), None);
    assert_eq!(other, SpeciesAreaHighlightState::default());
    assert_eq!(press_species_area_row(&mut other, &SpeciesLedgerUiState::default(), &stats), None);
}

#[test]
fn outline_is_drawn_once_per_revision() {
    let stats = stats_with(&[3, 4]);
    let ledger = journal_on(4);
    let mut highlight = SpeciesAreaHighlightState { species: Some(4), rendered_revision: 0 };
    assert_eq!(update_species_area_highlight(&mut highlight, &ledger, &stats, false), AreaHighlightAction::Redraw(4));
    assert_eq!(highlight.rendered_revision, stats.revision);
    assert_eq!(update_species_area_highlight(&mut highlight, &ledger, &stats, true), AreaHighlightAction::Keep);
    // nothing on screen any more: draw again
    assert_eq!(update_species_area_highlight(&mut highlight, &ledger, &stats, false), AreaHighlightAction::Redraw(4));
}

#[test]
fn outline_is_cleared_when_the_journal_closes_or_the_species_leaves() {
    let stats = stats_with(&[3, 4]);
    let mut highlight = SpeciesAreaHighlightState { species: Some(4), rendered_revision: 1 };
    let closed = SpeciesLedgerUiState { journal_open: false, ..journal_on(4) };
    assert_eq!(update_species_area_highlight(&mut highlight, &closed, &stats, true), AreaHighlightAction::Clear);
    assert_eq!(highlight, SpeciesAreaHighlightState::default());
    assert_eq!(update_species_area_highlight(&mut highlight, &closed, &stats, false), AreaHighlightAction::Keep);

    let gone = stats_with(&[3]);
    let mut highlight = SpeciesAreaHighlightState { species: Some(4), rendered_revision: 1 };
    assert_eq!(update_species_area_highlight(&mut highlight, &journal_on(4), &gone, true), AreaHighlightAction::Clear);
    assert_eq!(highlight, SpeciesAreaHighlightState::default());

    // a request for another species than the journal shows is dropped
    let mut highlight = SpeciesAreaHighlightState { species: Some(3), rendered_revision: 1 };
    assert_eq!(update_species_area_highlight(&mut highlight, &journal_on(4), &stats, false), AreaHighlightAction::Clear);
}
