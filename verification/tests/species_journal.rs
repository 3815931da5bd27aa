use organoids::journal::{
    species_ledger_row_count_text, species_ledger_row_look, LedgerRowLook, population_metric_text, population_trend_text, species_genus_population, species_journal_subtitle,
    species_largest_population, species_relatives_count,
};
use organoids::ledger::{update_species_ledger_stats, SpeciesLedgerStats, SpeciesTally};
use organoids::taxonomy::make_species_name_book;
use organoids::text::{population_delta_text, Trend};
use organoids::ui_state::SpeciesLedgerUiState;

fn ledger(tallies: &[(u32, usize)]) -> SpeciesLedgerStats {
    let mut stats = SpeciesLedgerStats::new();
    let tallies: Vec<SpeciesTally> = tallies.iter().map(|&(species, alive)| SpeciesTally { species, alive }).collect();
    update_species_ledger_stats(&mut stats, &tallies, true);
    stats
}

#[test]
fn signed_changes_read_like_plus_format() {
    assert_eq!(population_delta_text(5), (" +5".to_string(), Trend::Rising));
    assert_eq!(population_delta_text(0), (" +0".to_string(), Trend::Steady));
    assert_eq!(population_delta_text(-12), (" -12".to_string(), Trend::Falling));
    assert_eq!(population_delta_text(i64::MIN).0, format!(" {:+}", i64::MIN));
    assert_eq!(population_delta_text(i64::MAX).0, format!(" {:+}", i64::MAX));
}

#[test]
fn journal_population_texts() {
    assert_eq!(population_trend_text(40, 0), "40 живых");
    assert_eq!(population_trend_text(40, 3), "40 +3");
    assert_eq!(population_trend_text(40, -7), "40 -7");
    assert_eq!(population_metric_text(40, 0), "40 +0");
    assert_eq!(population_metric_text(0, -2), "0 -2");
}

#[test]
fn genus_figures_count_the_ledger() {
    // genus 1 holds species 10_000, 10_001 and 19_999; genus 2 holds 20_000
    let stats = ledger(&[(10_000, 5), (10_001, 7), (19_999, 1), (20_000, 30)]);
    assert_eq!(species_genus_population(&stats, 10_001), 13);
    assert_eq!(species_genus_population(&stats, 20_000), 30);
    assert_eq!(species_genus_population(&stats, 35_000), 0);
    assert_eq!(species_relatives_count(&stats, 10_001), 2);
    assert_eq!(species_relatives_count(&stats, 20_000), 0);
    assert_eq!(species_largest_population(&stats, 1), 30);
    assert_eq!(species_largest_population(&SpeciesLedgerStats::new(), 9), 9);
}

#[test]
fn journal_subtitle_names_shape_genus_and_relatives() {
    let names = make_species_name_book("", "", "");
    let stats = ledger(&[(10_000, 5), (10_001, 7), (20_000, 30)]);
    assert_eq!(
        species_journal_subtitle(&names, &stats, 10_001),
        "Кокк · род Lumaum · в роде 12 · родственных 1"
    );
}

#[test]
fn ledger_rows_show_selection_and_relatives() {
    let stats = ledger(&[(10_000, 5), (10_001, 7), (20_000, 30)]);
    let none = SpeciesLedgerUiState::default();
    assert_eq!(species_ledger_row_look(&none, &stats, 10_000), LedgerRowLook::Plain);
    let state = SpeciesLedgerUiState { open: true, selected_species: Some(10_001), ..SpeciesLedgerUiState::default() };
    assert_eq!(species_ledger_row_look(&state, &stats, 10_001), LedgerRowLook::Selected);
    assert_eq!(species_ledger_row_look(&state, &stats, 10_000), LedgerRowLook::Related);
    assert_eq!(species_ledger_row_look(&state, &stats, 20_000), LedgerRowLook::Plain);
    // a relative that left the ledger is shown plain
    assert_eq!(species_ledger_row_look(&state, &stats, 10_002), LedgerRowLook::Plain);
    // a selected species that left the ledger has no relatives
    let gone = SpeciesLedgerUiState { selected_species: Some(10_009), ..state };
    assert_eq!(species_ledger_row_look(&gone, &stats, 10_000), LedgerRowLook::Plain);
    assert_eq!(species_ledger_row_count_text(&stats, 20_000), "30");
    assert_eq!(species_ledger_row_count_text(&stats, 3), "0");
}
