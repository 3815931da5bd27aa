use organoids::chronicle::{ChronicleEventKind, ChronicleGraphMode, ChronicleUiState, CHRONICLE_ALL_EVENT_FILTERS};
use organoids::ui_state::{
    cleanup_running_game, desired_highlight_species, forget_missing_cell, game_ui_input_system,
    ledger_needs_render, mark_ledger_rendered, passport_toggle_action_system, pause_menu_button_system,
    select_cell_system, select_random_cell_of_species, species_ledger_button_system, species_ledger_row_system, speed_button_is_active,
    speed_button_system, chronicle_button_system, chronicle_filter_button_system, chronicle_graph_button_system,
    AppState, CellPick, GameUiState, KeyPresses, PauseMenuAction, PauseMenuEffect, SelectedCell,
    SpeciesLedgerUiState, SpeedButtonKind, SpeedPreset,
};

fn no_keys() -> KeyPresses {
    KeyPresses {
        space: false,
        tab: false,
        ledger: false,
        journal: false,
        speed_panel: false,
        chronicle: false,
        escape: false,
        digit1: false,
        digit2: false,
        digit3: false,
        digit4: false,
        digit5: false,
        digit6: false,
        digit7: false,
    }
}

fn selected(cell: Option<u64>) -> SelectedCell {
    SelectedCell { cell_id: cell, last_click_cell_id: cell }
}

#[test]
fn initial_game_state_runs_at_normal_speed() {
    let ui = GameUiState::default();
    assert!(!ui.paused);
    assert!(!ui.passport_open);
    assert!(!ui.pause_menu_open);
    assert!(ui.speed_panel_open);
    assert_eq!(ui.speed, SpeedPreset::Normal);
}

#[test]
fn space_toggles_pause_and_resume_closes_pause_menu() {
    let mut ui = GameUiState::default();
    let mut ledger = SpeciesLedgerUiState::default();
    let mut chronicle = ChronicleUiState::default();
    let mut keys = no_keys();
    keys.escape = true;
    game_ui_input_system(&keys, &selected(None), &mut ui, &mut ledger, &mut chronicle);
    assert!(ui.paused && ui.pause_menu_open);

    let mut keys = no_keys();
    keys.space = true;
    game_ui_input_system(&keys, &selected(None), &mut ui, &mut ledger, &mut chronicle);
    assert!(!ui.paused);
    assert!(!ui.pause_menu_open);
}

#[test]
fn escape_twice_restores_running_state() {
    let mut ui = GameUiState::default();
    let mut ledger = SpeciesLedgerUiState::default();
    let mut chronicle = ChronicleUiState::default();
    let mut keys = no_keys();
    keys.escape = true;
    game_ui_input_system(&keys, &selected(None), &mut ui, &mut ledger, &mut chronicle);
    assert_eq!(ui.paused, ui.pause_menu_open);
    assert!(ui.pause_menu_open);
    game_ui_input_system(&keys, &selected(None), &mut ui, &mut ledger, &mut chronicle);
    assert_eq!(ui, GameUiState::default());
}

#[test]
fn digit_keys_pick_speed_and_resume() {
    let mut ui = GameUiState { paused: true, pause_menu_open: true, ..GameUiState::default() };
    let mut ledger = SpeciesLedgerUiState::default();
    let mut chronicle = ChronicleUiState::default();
    let mut keys = no_keys();
    keys.digit6 = true;
    game_ui_input_system(&keys, &selected(None), &mut ui, &mut ledger, &mut chronicle);
    assert_eq!(ui.speed, SpeedPreset::Five);
    assert!(!ui.paused);
    assert!(!ui.pause_menu_open);

    // several digits in one frame: the highest one is handled last
    let mut keys = no_keys();
    keys.digit2 = true;
    keys.digit7 = true;
    game_ui_input_system(&keys, &selected(None), &mut ui, &mut ledger, &mut chronicle);
    assert_eq!(ui.speed, SpeedPreset::Ten);
}

#[test]
fn tab_opens_passport_only_with_a_selected_cell() {
    let mut ui = GameUiState::default();
    let mut ledger = SpeciesLedgerUiState::default();
    let mut chronicle = ChronicleUiState::default();
    let mut keys = no_keys();
    keys.tab = true;
    game_ui_input_system(&keys, &selected(None), &mut ui, &mut ledger, &mut chronicle);
    assert!(!ui.passport_open);
    game_ui_input_system(&keys, &selected(Some(5)), &mut ui, &mut ledger, &mut chronicle);
    assert!(ui.passport_open);
    game_ui_input_system(&no_keys(), &selected(None), &mut ui, &mut ledger, &mut chronicle);
    assert!(!ui.passport_open);
}

#[test]
fn ledger_journal_and_chronicle_keys() {
    let mut ui = GameUiState::default();
    let mut ledger = SpeciesLedgerUiState::default();
    let mut chronicle = ChronicleUiState::default();

    let mut keys = no_keys();
    keys.journal = true;
    game_ui_input_system(&keys, &selected(None), &mut ui, &mut ledger, &mut chronicle);
    assert!(!ledger.journal_open);

    let mut keys = no_keys();
    keys.ledger = true;
    keys.chronicle = true;
    keys.speed_panel = true;
    game_ui_input_system(&keys, &selected(None), &mut ui, &mut ledger, &mut chronicle);
    assert!(ledger.open);
    assert!(chronicle.open);
    assert!(!ui.speed_panel_open);

    ledger.selected_species = Some(12);
    let mut keys = no_keys();
    keys.journal = true;
    game_ui_input_system(&keys, &selected(None), &mut ui, &mut ledger, &mut chronicle);
    assert!(ledger.journal_open);

    let mut keys = no_keys();
    keys.ledger = true;
    game_ui_input_system(&keys, &selected(None), &mut ui, &mut ledger, &mut chronicle);
    assert!(!ledger.open);
    assert!(!ledger.journal_open);
    assert_eq!(ledger.selected_species, None);
    assert_eq!(ledger.scroll_target_species, None);
}

#[test]
fn speed_panel_buttons() {
    let mut ui = GameUiState::default();
    assert!(speed_button_is_active(&ui, SpeedButtonKind::Speed(SpeedPreset::Normal)));
    assert!(!speed_button_is_active(&ui, SpeedButtonKind::Pause));
    speed_button_system(SpeedButtonKind::Pause, &mut ui);
    assert!(ui.paused);
    assert!(speed_button_is_active(&ui, SpeedButtonKind::Pause));
    assert!(!speed_button_is_active(&ui, SpeedButtonKind::Speed(SpeedPreset::Normal)));
    speed_button_system(SpeedButtonKind::Speed(SpeedPreset::Tenth), &mut ui);
    assert!(!ui.paused);
    assert_eq!(ui.speed, SpeedPreset::Tenth);
    assert!(speed_button_is_active(&ui, SpeedButtonKind::Speed(SpeedPreset::Tenth)));
    assert!(!speed_button_is_active(&ui, SpeedButtonKind::Speed(SpeedPreset::Half)));
}

#[test]
fn pause_menu_entries() {
    let paused = GameUiState { paused: true, pause_menu_open: true, passport_open: true, ..GameUiState::default() };

    let mut ui = paused;
    assert_eq!(pause_menu_button_system(PauseMenuAction::Resume, &mut ui), PauseMenuEffect::Stay);
    assert!(!ui.paused && !ui.pause_menu_open && ui.passport_open);

    let mut ui = paused;
    assert_eq!(
        pause_menu_button_system(PauseMenuAction::MainMenu, &mut ui),
        PauseMenuEffect::SwitchTo(AppState::Menu)
    );
    assert!(!ui.paused && !ui.pause_menu_open && !ui.passport_open);

    let mut ui = paused;
    assert_eq!(pause_menu_button_system(PauseMenuAction::Exit, &mut ui), PauseMenuEffect::Quit);
    assert_eq!(ui, paused);
}

#[test]
fn passport_button_needs_selection() {
    let mut ui = GameUiState::default();
    passport_toggle_action_system(&selected(None), &mut ui);
    assert!(!ui.passport_open);
    passport_toggle_action_system(&selected(Some(3)), &mut ui);
    assert!(ui.passport_open);
    passport_toggle_action_system(&selected(Some(3)), &mut ui);
    assert!(!ui.passport_open);
}

#[test]
fn world_click_selects_and_double_click_opens_ledger() {
    let mut sel = SelectedCell::default();
    let mut ledger = SpeciesLedgerUiState::default();
    let mut ui = GameUiState::default();
    let pick = Some(CellPick { cell_id: 40, species: 7 });

    select_cell_system(pick, true, &mut sel, &mut ledger, &mut ui);
    assert_eq!(sel.cell_id, Some(40));
    assert_eq!(sel.last_click_cell_id, Some(40));
    assert!(!ledger.open);

    select_cell_system(pick, true, &mut sel, &mut ledger, &mut ui);
    assert!(ledger.open);
    assert_eq!(ledger.selected_species, Some(7));
    assert_eq!(ledger.scroll_target_species, Some(7));

    // a second click too late is a single click: it selects without scrolling
    let mut sel = SelectedCell { cell_id: None, last_click_cell_id: Some(41) };
    let mut ledger = SpeciesLedgerUiState { open: true, ..SpeciesLedgerUiState::default() };
    select_cell_system(Some(CellPick { cell_id: 41, species: 9 }), false, &mut sel, &mut ledger, &mut ui);
    assert_eq!(ledger.selected_species, Some(9));
    assert_eq!(ledger.scroll_target_species, None);
}

#[test]
fn empty_world_click_clears_selection() {
    let mut sel = selected(Some(4));
    let mut ledger = SpeciesLedgerUiState {
        open: true,
        journal_open: true,
        selected_species: Some(2),
        scroll_target_species: Some(2),
        ..SpeciesLedgerUiState::default()
    };
    let mut ui = GameUiState { passport_open: true, ..GameUiState::default() };
    select_cell_system(None, false, &mut sel, &mut ledger, &mut ui);
    assert_eq!(sel.cell_id, None);
    assert_eq!(sel.last_click_cell_id, Some(4));
    assert_eq!(ledger.selected_species, None);
    assert!(!ledger.journal_open);
    assert!(ledger.open);
    assert!(!ui.passport_open);
}

#[test]
fn world_clicks_are_ignored_under_pause_menu() {
    let mut sel = selected(Some(4));
    let mut ledger = SpeciesLedgerUiState::default();
    let mut ui = GameUiState { paused: true, pause_menu_open: true, passport_open: true, ..GameUiState::default() };
    let before = (sel, ledger, ui);
    select_cell_system(None, false, &mut sel, &mut ledger, &mut ui);
    assert_eq!((sel, ledger, ui), before);
}

#[test]
fn ledger_row_clicks_select_deselect_and_focus() {
    let mut ledger = SpeciesLedgerUiState { open: true, ..SpeciesLedgerUiState::default() };
    assert!(!species_ledger_row_system(8, true, &mut ledger));
    assert_eq!(ledger.selected_species, Some(8));
    // second click within the window is a double click: keep the row and focus a cell
    assert!(species_ledger_row_system(8, true, &mut ledger));
    assert_eq!(ledger.selected_species, Some(8));
    // a late click on the selected row deselects it and closes the journal
    ledger.journal_open = true;
    assert!(!species_ledger_row_system(8, false, &mut ledger));
    assert_eq!(ledger.selected_species, None);
    assert!(!ledger.journal_open);
    assert_eq!(ledger.last_click_species, Some(8));
}

#[test]
fn ledger_button_toggles_and_clears() {
    let mut ledger = SpeciesLedgerUiState::default();
    species_ledger_button_system(&mut ledger);
    assert!(ledger.open);
    ledger.selected_species = Some(1);
    ledger.journal_open = true;
    species_ledger_button_system(&mut ledger);
    assert!(!ledger.open && !ledger.journal_open);
    assert_eq!(ledger.selected_species, None);
}

#[test]
fn highlight_follows_open_journal_species() {
    let ledger = SpeciesLedgerUiState {
        open: true,
        journal_open: true,
        selected_species: Some(6),
        ..SpeciesLedgerUiState::default()
    };
    assert_eq!(desired_highlight_species(&ledger, Some(6)), Some(6));
    assert_eq!(desired_highlight_species(&ledger, Some(5)), None);
    assert_eq!(desired_highlight_species(&ledger, None), None);
    let closed = SpeciesLedgerUiState { journal_open: false, ..ledger };
    assert_eq!(desired_highlight_species(&closed, Some(6)), None);
}

#[test]
fn missing_cell_and_cleanup() {
    let mut sel = selected(Some(9));
    forget_missing_cell(&mut sel, true);
    assert_eq!(sel.cell_id, Some(9));
    forget_missing_cell(&mut sel, false);
    assert_eq!(sel.cell_id, None);
    assert_eq!(sel.last_click_cell_id, Some(9));

    let mut sel = selected(Some(2));
    let mut ui = GameUiState { paused: true, speed: SpeedPreset::Ten, speed_panel_open: false, ..GameUiState::default() };
    cleanup_running_game(&mut sel, &mut ui);
    assert_eq!(sel.cell_id, None);
    assert_eq!(ui, GameUiState::default());
}

#[test]
fn ledger_render_bookkeeping() {
    let mut ledger = SpeciesLedgerUiState::default();
    assert!(!ledger_needs_render(&ledger, 0, 0, 0));
    assert!(ledger_needs_render(&ledger, 1, 0, 0));
    assert!(ledger_needs_render(&ledger, 0, 3, 27));
    mark_ledger_rendered(&mut ledger, 4, 3, 27);
    assert!(!ledger_needs_render(&ledger, 4, 3, 27));
    assert!(ledger_needs_render(&ledger, 4, 3, 30));
}

#[test]
fn chronicle_panel_buttons() {
    let mut state = ChronicleUiState::default();
    assert_eq!(state.event_filters, CHRONICLE_ALL_EVENT_FILTERS);
    chronicle_button_system(&mut state);
    assert!(state.open);
    chronicle_filter_button_system(ChronicleEventKind::Energy, &mut state);
    assert!(!state.event_enabled(ChronicleEventKind::Energy));
    assert!(state.event_enabled(ChronicleEventKind::World));
    chronicle_graph_button_system(ChronicleGraphMode::Food, &mut state);
    assert_eq!(state.graph_mode, ChronicleGraphMode::Food);
    assert!(state.open);
    assert_eq!(state.event_filters, CHRONICLE_ALL_EVENT_FILTERS ^ 16);
}

#[test]
fn double_click_on_a_row_selects_a_living_cell() {
    let species = vec![3, 5, 3, 8];
    let ids = vec![100, 101, 102, 103];
    let mut sel = SelectedCell { cell_id: None, last_click_cell_id: Some(7) };
    let index = select_random_cell_of_species(&species, &ids, 3, &mut sel).unwrap();
    assert!(index == 0 || index == 2);
    assert_eq!(sel.cell_id, Some(ids[index]));
    assert_eq!(sel.last_click_cell_id, Some(7));
    let before = sel;
    assert_eq!(select_random_cell_of_species(&species, &ids, 9, &mut sel), None);
    assert_eq!(sel, before);
}
