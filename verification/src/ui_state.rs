use vstd::prelude::*;
use crate::chronicle::{ChronicleUiState, ChronicleEventKind, ChronicleGraphMode};
use crate::ledger::{pick_random_cell_of_species, species_cells};

verus! {

/// Top-level screen of the application.
#[derive(Clone, Copy, PartialEq, Eq, Structural, Debug)]
pub enum AppState {
    Menu,
    Running,
}

/// The simulation speeds offered by the speed panel and the digit keys
/// 2 to 7: 0.1x, 0.5x, 1x, 2x, 5x and 10x.
#[derive(Clone, Copy, PartialEq, Eq, Structural, Debug)]
pub enum SpeedPreset {
    Tenth,
    Half,
    Normal,
    Double,
    Five,
    Ten,
}

/// A button of the speed panel: the pause toggle or one speed preset.
#[derive(Clone, Copy, PartialEq, Eq, Structural, Debug)]
pub enum SpeedButtonKind {
    Pause,
    Speed(SpeedPreset),
}

/// An entry of the pause menu.
#[derive(Clone, Copy, PartialEq, Eq, Structural, Debug)]
pub enum PauseMenuAction {
    Resume,
    MainMenu,
    Exit,
}

/// What the application must do after a pause menu entry was pressed.
#[derive(Clone, Copy, PartialEq, Eq, Structural, Debug)]
pub enum PauseMenuEffect {
    Stay,
    SwitchTo(AppState),
    Quit,
}

/// Pause, panel and speed state of a running game.
#[derive(Clone, Copy, PartialEq, Eq, Structural, Debug)]
pub struct GameUiState {
    pub paused: bool,
    pub passport_open: bool,
    pub pause_menu_open: bool,
    pub speed_panel_open: bool,
    pub speed: SpeedPreset,
}

impl GameUiState {
    /// The pause menu is only ever open while the simulation is paused.
    pub open spec fn inv(self) -> bool {
        self.pause_menu_open ==> self.paused
    }

    pub open spec fn initial() -> GameUiState {
        GameUiState {
            paused: false,
            passport_open: false,
            pause_menu_open: false,
            speed_panel_open: true,
            speed: SpeedPreset::Normal,
        }
    }
}

impl Default for GameUiState {
    fn default() -> (state: Self)
        ensures
            state == GameUiState::initial(),
    {
        GameUiState {
            paused: false,
            passport_open: false,
            pause_menu_open: false,
            speed_panel_open: true,
            speed: SpeedPreset::Normal,
        }
    }
}

/// The currently selected cell and the cell of the previous click.
#[derive(Clone, Copy, PartialEq, Eq, Structural, Debug)]
pub struct SelectedCell {
    pub cell_id: Option<u64>,
    pub last_click_cell_id: Option<u64>,
}

impl Default for SelectedCell {
    fn default() -> (state: Self)
        ensures
            state.cell_id.is_none(),
            state.last_click_cell_id.is_none(),
    {
        SelectedCell { cell_id: None, last_click_cell_id: None }
    }
}

/// Open state, selection and render bookkeeping of the species ledger.
#[derive(Clone, Copy, PartialEq, Eq, Structural, Debug)]
pub struct SpeciesLedgerUiState {
    pub open: bool,
    pub journal_open: bool,
    pub selected_species: Option<u32>,
    pub last_click_species: Option<u32>,
    pub rendered_revision: u64,
    pub rendered_range_start: usize,
    pub rendered_range_end: usize,
    pub scroll_target_species: Option<u32>,
}

impl SpeciesLedgerUiState {
    /// The journal is only open over an open ledger with a selected species.
    pub open spec fn inv(self) -> bool {
        self.journal_open ==> self.open && self.selected_species.is_some()
    }

    pub open spec fn initial() -> SpeciesLedgerUiState {
        SpeciesLedgerUiState {
            open: false,
            journal_open: false,
            selected_species: None,
            last_click_species: None,
            rendered_revision: 0,
            rendered_range_start: 0,
            rendered_range_end: 0,
            scroll_target_species: None,
        }
    }
}

impl Default for SpeciesLedgerUiState {
    fn default() -> (state: Self)
        ensures
            state == SpeciesLedgerUiState::initial(),
    {
        SpeciesLedgerUiState {
            open: false,
            journal_open: false,
            selected_species: None,
            last_click_species: None,
            rendered_revision: 0,
            rendered_range_start: 0,
            rendered_range_end: 0,
            scroll_target_species: None,
        }
    }
}

/// Keys pressed during one frame, in the order in which they are handled.
#[derive(Clone, Copy, PartialEq, Eq, Structural, Debug)]
pub struct KeyPresses {
    /// Space: pause toggle.
    pub space: bool,
    /// Tab: cell passport.
    pub tab: bool,
    /// Q: species ledger.
    pub ledger: bool,
    /// E: species journal.
    pub journal: bool,
    /// C: speed panel.
    pub speed_panel: bool,
    /// H: chronicle.
    pub chronicle: bool,
    /// Escape: pause menu.
    pub escape: bool,
    /// Digit 1: pause toggle.
    pub digit1: bool,
    /// Digits 2 to 7: speed presets 0.1x to 10x.
    pub digit2: bool,
    pub digit3: bool,
    pub digit4: bool,
    pub digit5: bool,
    pub digit6: bool,
    pub digit7: bool,
}

// ----- transitions as spec functions -----

/// Pause toggle: resuming also closes the pause menu.
pub open spec fn toggled_pause(g: GameUiState) -> GameUiState {
    GameUiState {
        paused: !g.paused,
        pause_menu_open: if !g.paused { g.pause_menu_open } else { false },
        ..g
    }
}

/// Choosing a speed resumes the simulation and closes the pause menu.
pub open spec fn with_speed(g: GameUiState, speed: SpeedPreset) -> GameUiState {
    GameUiState { speed: speed, paused: false, pause_menu_open: false, ..g }
}

/// Escape closes an open pause menu and resumes, or opens it and pauses.
pub open spec fn escaped(g: GameUiState) -> GameUiState {
    if g.pause_menu_open {
        GameUiState { pause_menu_open: false, paused: false, ..g }
    } else {
        GameUiState { pause_menu_open: true, paused: true, ..g }
    }
}

/// Tab toggles the passport when a cell is selected and closes it otherwise.
pub open spec fn tabbed(g: GameUiState, has_selection: bool) -> GameUiState {
    GameUiState { passport_open: if has_selection { !g.passport_open } else { false }, ..g }
}

/// Toggling the ledger; closing it drops the journal and the selection.
pub open spec fn toggled_ledger(s: SpeciesLedgerUiState) -> SpeciesLedgerUiState {
    if s.open {
        SpeciesLedgerUiState {
            open: false,
            journal_open: false,
            selected_species: None,
            scroll_target_species: None,
            last_click_species: None,
            ..s
        }
    } else {
        SpeciesLedgerUiState { open: true, ..s }
    }
}

/// The journal toggles over an open ledger with a selection, and closes otherwise.
pub open spec fn toggled_journal(s: SpeciesLedgerUiState) -> SpeciesLedgerUiState {
    SpeciesLedgerUiState {
        journal_open: if s.open && s.selected_species.is_some() { !s.journal_open } else { false },
        ..s
    }
}

pub open spec fn when(cond: bool, before: GameUiState, after: GameUiState) -> GameUiState {
    if cond { after } else { before }
}

/// The game state after the non-digit keys of one frame.
pub open spec fn game_after_command_keys(g0: GameUiState, k: KeyPresses, has_selection: bool) -> GameUiState {
    let g1 = when(k.space, g0, toggled_pause(g0));
    let g2 = when(k.tab, g1, tabbed(g1, has_selection));
    let g3 = when(k.speed_panel, g2, GameUiState { speed_panel_open: !g2.speed_panel_open, ..g2 });
    when(k.escape, g3, escaped(g3))
}

/// The game state after the digit keys of one frame, handled from 1 to 7.
pub open spec fn game_after_digit_keys(g4: GameUiState, k: KeyPresses) -> GameUiState {
    let g5 = when(k.digit1, g4, toggled_pause(g4));
    let g6 = when(k.digit2, g5, with_speed(g5, SpeedPreset::Tenth));
    let g7 = when(k.digit3, g6, with_speed(g6, SpeedPreset::Half));
    let g8 = when(k.digit4, g7, with_speed(g7, SpeedPreset::Normal));
    let g9 = when(k.digit5, g8, with_speed(g8, SpeedPreset::Double));
    let g10 = when(k.digit6, g9, with_speed(g9, SpeedPreset::Five));
    when(k.digit7, g10, with_speed(g10, SpeedPreset::Ten))
}

/// The game state after the keys of one frame; without a selected cell the
/// passport ends up closed.
pub open spec fn game_after_keys(g0: GameUiState, k: KeyPresses, has_selection: bool) -> GameUiState {
    let g = game_after_digit_keys(game_after_command_keys(g0, k, has_selection), k);
    if has_selection { g } else { GameUiState { passport_open: false, ..g } }
}

/// The ledger state after the keys of one frame.
pub open spec fn ledger_after_keys(s0: SpeciesLedgerUiState, k: KeyPresses) -> SpeciesLedgerUiState {
    let s1 = if k.ledger { toggled_ledger(s0) } else { s0 };
    if k.journal { toggled_journal(s1) } else { s1 }
}

/// The chronicle state after the keys of one frame: H toggles the panel.
pub open spec fn chronicle_after_keys(c: ChronicleUiState, k: KeyPresses) -> ChronicleUiState {
    if k.chronicle { ChronicleUiState { open: !c.open, ..c } } else { c }
}

// ----- executable transitions -----

fn toggle_pause(ui: &mut GameUiState)
    ensures
        *final(ui) == toggled_pause(*old(ui)),
{
    ui.paused = !ui.paused;
    if !ui.paused {
        ui.pause_menu_open = false;
    }
}

fn set_speed(ui: &mut GameUiState, speed: SpeedPreset)
    ensures
        *final(ui) == with_speed(*old(ui), speed),
{
    ui.speed = speed;
    ui.paused = false;
    ui.pause_menu_open = false;
}

fn toggle_ledger(state: &mut SpeciesLedgerUiState)
    ensures
        *final(state) == toggled_ledger(*old(state)),
{
    state.open = !state.open;
    if !state.open {
        state.journal_open = false;
        state.selected_species = None;
        state.scroll_target_species = None;
        state.last_click_species = None;
    }
}

fn apply_command_keys(keys: &KeyPresses, has_selection: bool, ui_state: &mut GameUiState)
    ensures
        *final(ui_state) == game_after_command_keys(*old(ui_state), *keys, has_selection),
{
    if keys.space {
        toggle_pause(ui_state);
    }
    if keys.tab {
        if has_selection {
            ui_state.passport_open = !ui_state.passport_open;
        } else {
            ui_state.passport_open = false;
        }
    }
    if keys.speed_panel {
        ui_state.speed_panel_open = !ui_state.speed_panel_open;
    }
    if keys.escape {
        if ui_state.pause_menu_open {
            ui_state.pause_menu_open = false;
            ui_state.paused = false;
        } else {
            ui_state.pause_menu_open = true;
            ui_state.paused = true;
        }
    }
}

fn apply_digit_keys(keys: &KeyPresses, ui_state: &mut GameUiState)
    ensures
        *final(ui_state) == game_after_digit_keys(*old(ui_state), *keys),
{
    if keys.digit1 {
        toggle_pause(ui_state);
    }
    if keys.digit2 {
        set_speed(ui_state, SpeedPreset::Tenth);
    }
    if keys.digit3 {
        set_speed(ui_state, SpeedPreset::Half);
    }
    if keys.digit4 {
        set_speed(ui_state, SpeedPreset::Normal);
    }
    if keys.digit5 {
        set_speed(ui_state, SpeedPreset::Double);
    }
    if keys.digit6 {
        set_speed(ui_state, SpeedPreset::Five);
    }
    if keys.digit7 {
        set_speed(ui_state, SpeedPreset::Ten);
    }
}

/// Applies the keyboard shortcuts of one frame: Space and 1 toggle the
/// pause, Tab the passport, Q the ledger, E the journal, C the speed panel,
/// H the chronicle, Escape the pause menu and 2 to 7 pick a speed.
pub fn game_ui_input_system(
    keys: &KeyPresses,
    selected: &SelectedCell,
    ui_state: &mut GameUiState,
    species_ui: &mut SpeciesLedgerUiState,
    chronicle_ui: &mut ChronicleUiState,
)
    ensures
        *final(ui_state) == game_after_keys(*old(ui_state), *keys, selected.cell_id.is_some()),
        *final(species_ui) == ledger_after_keys(*old(species_ui), *keys),
        *final(chronicle_ui) == chronicle_after_keys(*old(chronicle_ui), *keys),
{
    let has_selection = selected.cell_id.is_some();
    apply_command_keys(keys, has_selection, ui_state);
    if keys.ledger {
        toggle_ledger(species_ui);
    }
    if keys.journal {
        if species_ui.open && species_ui.selected_species.is_some() {
            species_ui.journal_open = !species_ui.journal_open;
        } else {
            species_ui.journal_open = false;
        }
    }
    if keys.chronicle {
        chronicle_ui.open = !chronicle_ui.open;
    }
    apply_digit_keys(keys, ui_state);
    if !has_selection {
        ui_state.passport_open = false;
    }
}

/// A cell under the cursor when the left button was pressed.
#[derive(Clone, Copy, PartialEq, Eq, Structural, Debug)]
pub struct CellPick {
    pub cell_id: u64,
    pub species: u32,
}

/// Effect of pressing a speed panel button.
pub open spec fn after_speed_button(g: GameUiState, button: SpeedButtonKind) -> GameUiState {
    match button {
        SpeedButtonKind::Pause => toggled_pause(g),
        SpeedButtonKind::Speed(speed) => with_speed(g, speed),
    }
}

/// Handles a press on a speed panel button.
pub fn speed_button_system(button: SpeedButtonKind, ui_state: &mut GameUiState)
    ensures
        *final(ui_state) == after_speed_button(*old(ui_state), button),
{
    match button {
        SpeedButtonKind::Pause => toggle_pause(ui_state),
        SpeedButtonKind::Speed(speed) => set_speed(ui_state, speed),
    }
}

/// Whether a speed panel button is shown as the active one: the pause
/// button while paused, a speed button while running at its speed.
pub fn speed_button_is_active(ui_state: &GameUiState, button: SpeedButtonKind) -> (active: bool)
    ensures
        active == match button {
            SpeedButtonKind::Pause => ui_state.paused,
            SpeedButtonKind::Speed(speed) => !ui_state.paused && ui_state.speed == speed,
        },
{
    match button {
        SpeedButtonKind::Pause => ui_state.paused,
        SpeedButtonKind::Speed(speed) => !ui_state.paused && ui_state.speed == speed,
    }
}

/// Handles a press on the species ledger button.
pub fn species_ledger_button_system(state: &mut SpeciesLedgerUiState)
    ensures
        *final(state) == toggled_ledger(*old(state)),
{
    toggle_ledger(state);
}

/// Handles a press on the chronicle button.
pub fn chronicle_button_system(state: &mut ChronicleUiState)
    ensures
        final(state).open == !old(state).open,
        final(state).event_filters == old(state).event_filters,
        final(state).graph_mode == old(state).graph_mode,
{
    state.open = !state.open;
}

/// Handles a press on the filter button of an event category.
pub fn chronicle_filter_button_system(kind: ChronicleEventKind, state: &mut ChronicleUiState)
    ensures
        final(state).event_filters == old(state).event_filters ^ crate::chronicle::filter_bit(kind),
        final(state).open == old(state).open,
        final(state).graph_mode == old(state).graph_mode,
{
    state.toggle_event_filter(kind);
}

/// Handles a press on a graph mode button.
pub fn chronicle_graph_button_system(mode: ChronicleGraphMode, state: &mut ChronicleUiState)
    ensures
        final(state).graph_mode == mode,
        final(state).open == old(state).open,
        final(state).event_filters == old(state).event_filters,
{
    state.graph_mode = mode;
}

/// Effect of the passport button: it toggles the passport of a selected cell.
pub open spec fn after_passport_button(g: GameUiState, has_selection: bool) -> GameUiState {
    if has_selection { GameUiState { passport_open: !g.passport_open, ..g } } else { g }
}

/// Handles a press on the passport toggle button.
pub fn passport_toggle_action_system(selected: &SelectedCell, ui_state: &mut GameUiState)
    ensures
        *final(ui_state) == after_passport_button(*old(ui_state), selected.cell_id.is_some()),
{
    if selected.cell_id.is_some() {
        ui_state.passport_open = !ui_state.passport_open;
    }
}

/// Effect of a pause menu entry on the game state.
pub open spec fn after_pause_menu(g: GameUiState, action: PauseMenuAction) -> GameUiState {
    match action {
        PauseMenuAction::Resume => GameUiState { paused: false, pause_menu_open: false, ..g },
        PauseMenuAction::MainMenu => GameUiState {
            paused: false,
            pause_menu_open: false,
            passport_open: false,
            ..g
        },
        PauseMenuAction::Exit => g,
    }
}

/// Handles a press on a pause menu entry and says what the application
/// must do next: stay, return to the main menu, or quit.
pub fn pause_menu_button_system(action: PauseMenuAction, ui_state: &mut GameUiState) -> (effect: PauseMenuEffect)
    ensures
        *final(ui_state) == after_pause_menu(*old(ui_state), action),
        effect == match action {
            PauseMenuAction::Resume => PauseMenuEffect::Stay,
            PauseMenuAction::MainMenu => PauseMenuEffect::SwitchTo(AppState::Menu),
            PauseMenuAction::Exit => PauseMenuEffect::Quit,
        },
{
    match action {
        PauseMenuAction::Resume => {
            ui_state.paused = false;
            ui_state.pause_menu_open = false;
            PauseMenuEffect::Stay
        },
        PauseMenuAction::MainMenu => {
            ui_state.paused = false;
            ui_state.pause_menu_open = false;
            ui_state.passport_open = false;
            PauseMenuEffect::SwitchTo(AppState::Menu)
        },
        PauseMenuAction::Exit => PauseMenuEffect::Quit,
    }
}

/// Whether a click on `cell_id` counts as a double click: the previous
/// click was on the same cell, within the double-click time window.
pub open spec fn is_double_cell_click(sel: SelectedCell, cell_id: u64, within_window: bool) -> bool {
    sel.last_click_cell_id == Some(cell_id) && within_window
}

/// Selection after a world click.
pub open spec fn selection_after_pick(sel: SelectedCell, pick: Option<CellPick>) -> SelectedCell {
    match pick {
        Some(p) => SelectedCell { cell_id: Some(p.cell_id), last_click_cell_id: Some(p.cell_id) },
        None => SelectedCell { cell_id: None, ..sel },
    }
}

/// Ledger state after a world click: a picked cell selects its species in
/// an open ledger (a double click also scrolls to it), a double click with
/// the ledger closed opens it on that species, and a click on empty space
/// clears the species selection and closes the journal.
pub open spec fn ledger_after_pick(
    s: SpeciesLedgerUiState,
    sel: SelectedCell,
    pick: Option<CellPick>,
    within_window: bool,
) -> SpeciesLedgerUiState {
    match pick {
        Some(p) => {
            let double = is_double_cell_click(sel, p.cell_id, within_window);
            if s.open {
                SpeciesLedgerUiState {
                    selected_species: Some(p.species),
                    scroll_target_species: if double { Some(p.species) } else { s.scroll_target_species },
                    ..s
                }
            } else if double {
                SpeciesLedgerUiState {
                    open: true,
                    selected_species: Some(p.species),
                    scroll_target_species: Some(p.species),
                    ..s
                }
            } else {
                s
            }
        },
        None => SpeciesLedgerUiState {
            selected_species: None,
            journal_open: false,
            scroll_target_species: None,
            ..s
        },
    }
}

/// A click on a cell selects the cell's species whenever the ledger is open
/// or the click is a double click; a double click (same cell as the last
/// click, within the window) also opens the ledger and scrolls it to that
/// species, whether it was open or closed. A single click with the ledger
/// closed leaves the ledger state alone, and a click on empty space clears
/// the cell and species selection and closes the journal.
pub proof fn lemma_cell_click_targets_species(
    s: SpeciesLedgerUiState,
    sel: SelectedCell,
    p: CellPick,
    within_window: bool,
)
    ensures
        sel.last_click_cell_id == Some(p.cell_id) && within_window ==> {
            let after = ledger_after_pick(s, sel, Some(p), within_window);
            &&& after.open
            &&& after.selected_species == Some(p.species)
            &&& after.scroll_target_species == Some(p.species)
            &&& after.journal_open == s.journal_open
        },
        s.open ==> {
            let after = ledger_after_pick(s, sel, Some(p), within_window);
            &&& after.open
            &&& after.selected_species == Some(p.species)
            &&& after.journal_open == s.journal_open
            &&& !(sel.last_click_cell_id == Some(p.cell_id) && within_window)
                ==> after.scroll_target_species == s.scroll_target_species
        },
        !s.open && !(sel.last_click_cell_id == Some(p.cell_id) && within_window)
            ==> ledger_after_pick(s, sel, Some(p), within_window) == s,
        selection_after_pick(sel, Some(p)).cell_id == Some(p.cell_id),
        selection_after_pick(sel, Some(p)).last_click_cell_id == Some(p.cell_id),
        ({
            let after = ledger_after_pick(s, sel, None, within_window);
            &&& after.selected_species is None
            &&& !after.journal_open
            &&& after.scroll_target_species is None
            &&& after.open == s.open
            &&& selection_after_pick(sel, None).cell_id is None
        }),
{
}

/// Game state after a world click: a click on empty space closes the passport.
pub open spec fn game_after_pick(g: GameUiState, pick: Option<CellPick>) -> GameUiState {
    match pick {
        Some(_) => g,
        None => GameUiState { passport_open: false, ..g },
    }
}

/// Applies a left click on the world. `pick` is the cell under the cursor,
/// if any; `within_window` says whether the click came within the
/// double-click time of the previous one. Clicks are ignored while the
/// pause menu is open.
pub fn select_cell_system(
    pick: Option<CellPick>,
    within_window: bool,
    selected: &mut SelectedCell,
    species_ui: &mut SpeciesLedgerUiState,
    ui_state: &mut GameUiState,
)
    ensures
        old(ui_state).pause_menu_open ==> {
            &&& *final(selected) == *old(selected)
            &&& *final(species_ui) == *old(species_ui)
            &&& *final(ui_state) == *old(ui_state)
        },
        !old(ui_state).pause_menu_open ==> {
            &&& *final(selected) == selection_after_pick(*old(selected), pick)
            &&& *final(species_ui) == ledger_after_pick(*old(species_ui), *old(selected), pick, within_window)
            &&& *final(ui_state) == game_after_pick(*old(ui_state), pick)
        },
        !old(ui_state).pause_menu_open && pick is Some ==> {
            let p = pick->0;
            &&& final(selected).cell_id == Some(p.cell_id)
            &&& (old(species_ui).open || (old(selected).last_click_cell_id == Some(p.cell_id) && within_window))
                ==> final(species_ui).selected_species == Some(p.species)
            &&& (old(selected).last_click_cell_id == Some(p.cell_id) && within_window) ==> {
                &&& final(species_ui).open
                &&& final(species_ui).scroll_target_species == Some(p.species)
            }
        },
{
    proof {
        if let Some(p) = pick {
            lemma_cell_click_targets_species(*old(species_ui), *old(selected), p, within_window);
        }
    }
    if ui_state.pause_menu_open {
        return;
    }
    match pick {
        Some(p) => {
            let is_double = match selected.last_click_cell_id {
                Some(last) => last == p.cell_id && within_window,
                None => false,
            };
            selected.cell_id = Some(p.cell_id);
            selected.last_click_cell_id = Some(p.cell_id);
            if species_ui.open {
                species_ui.selected_species = Some(p.species);
                if is_double {
                    species_ui.scroll_target_species = Some(p.species);
                }
            } else if is_double {
                species_ui.open = true;
                species_ui.selected_species = Some(p.species);
                species_ui.scroll_target_species = Some(p.species);
            }
        },
        None => {
            selected.cell_id = None;
            species_ui.selected_species = None;
            species_ui.journal_open = false;
            species_ui.scroll_target_species = None;
            ui_state.passport_open = false;
        },
    }
}

/// Whether a click on the ledger row of `species` is a double click.
pub open spec fn is_double_row_click(s: SpeciesLedgerUiState, species: u32, within_window: bool) -> bool {
    s.last_click_species == Some(species) && within_window
}

/// Ledger state after a click on the row of `species`: a single click on
/// the selected row deselects it (closing the journal); any other click
/// selects the row.
pub open spec fn ledger_after_row_click(s: SpeciesLedgerUiState, species: u32, within_window: bool) -> SpeciesLedgerUiState {
    let double = is_double_row_click(s, species, within_window);
    if s.selected_species == Some(species) && !double {
        SpeciesLedgerUiState {
            last_click_species: Some(species),
            selected_species: None,
            journal_open: false,
            scroll_target_species: None,
            ..s
        }
    } else {
        SpeciesLedgerUiState {
            last_click_species: Some(species),
            selected_species: Some(species),
            ..s
        }
    }
}

/// Applies a click on a ledger row. Returns true for a double click, on
/// which the camera is to follow a random living cell of that species.
pub fn species_ledger_row_system(species: u32, within_window: bool, state: &mut SpeciesLedgerUiState) -> (focus_cell: bool)
    ensures
        *final(state) == ledger_after_row_click(*old(state), species, within_window),
        focus_cell == is_double_row_click(*old(state), species, within_window),
{
    let is_double = match state.last_click_species {
        Some(last) => last == species && within_window,
        None => false,
    };
    let was_selected = match state.selected_species {
        Some(current) => current == species,
        None => false,
    };
    state.last_click_species = Some(species);
    if was_selected && !is_double {
        state.selected_species = None;
        state.journal_open = false;
        state.scroll_target_species = None;
        return false;
    }
    state.selected_species = Some(species);
    is_double
}

/// After a double click on a ledger row: selects a random living cell of
/// `species` (cells are given by their species and ids, in world order) and
/// returns its index for the camera to follow. With no living cell of the
/// species nothing changes.
pub fn select_random_cell_of_species(
    cell_species: &Vec<u32>,
    cell_ids: &Vec<u64>,
    species: u32,
    selected: &mut SelectedCell,
) -> (index: Option<usize>)
    requires
        cell_ids.len() == cell_species.len(),
    ensures
        index.is_none() <==> species_cells(cell_species@, species).len() == 0,
        match index {
            Some(i) => i < cell_species.len() && cell_species@[i as int] == species
                && *final(selected) == (SelectedCell { cell_id: Some(cell_ids@[i as int]), ..*old(selected) }),
            None => *final(selected) == *old(selected),
        },
{
    let index = pick_random_cell_of_species(cell_species, species);
    match index {
        Some(i) => {
            selected.cell_id = Some(cell_ids[i]);
        },
        None => {},
    }
    index
}

/// The species whose area is highlighted: the highlighted species, while the
/// journal is open on that same species.
pub fn desired_highlight_species(state: &SpeciesLedgerUiState, highlighted: Option<u32>) -> (species: Option<u32>)
    ensures
        species == (if state.open && state.journal_open && highlighted.is_some()
            && state.selected_species == highlighted { highlighted } else { None }),
{
    if state.open && state.journal_open {
        match highlighted {
            Some(h) => match state.selected_species {
                Some(s) => if s == h { Some(h) } else { None },
                None => None,
            },
            None => None,
        }
    } else {
        None
    }
}

/// Drops the selected cell once it no longer exists in the world.
pub fn forget_missing_cell(selected: &mut SelectedCell, cell_exists: bool)
    ensures
        final(selected).cell_id == (if cell_exists { old(selected).cell_id } else { None }),
        final(selected).last_click_cell_id == old(selected).last_click_cell_id,
{
    if selected.cell_id.is_some() && !cell_exists {
        selected.cell_id = None;
    }
}

/// Resets the selection and the game state when a running game is left.
pub fn cleanup_running_game(selected: &mut SelectedCell, ui_state: &mut GameUiState)
    ensures
        final(selected).cell_id.is_none(),
        final(selected).last_click_cell_id == old(selected).last_click_cell_id,
        *final(ui_state) == GameUiState::initial(),
{
    selected.cell_id = None;
    *ui_state = GameUiState::default();
}

/// Whether the ledger grid must be rebuilt: the ordering changed or the
/// visible index range moved since the last render.
pub fn ledger_needs_render(state: &SpeciesLedgerUiState, revision: u64, range_start: usize, range_end: usize) -> (render: bool)
    ensures
        render == (state.rendered_revision != revision || state.rendered_range_start != range_start
            || state.rendered_range_end != range_end),
{
    state.rendered_revision != revision || state.rendered_range_start != range_start
        || state.rendered_range_end != range_end
}

/// Records what the ledger grid now shows.
pub fn mark_ledger_rendered(state: &mut SpeciesLedgerUiState, revision: u64, range_start: usize, range_end: usize)
    ensures
        *final(state) == (SpeciesLedgerUiState {
            rendered_revision: revision,
            rendered_range_start: range_start,
            rendered_range_end: range_end,
            ..*old(state)
        }),
{
    state.rendered_revision = revision;
    state.rendered_range_start = range_start;
    state.rendered_range_end = range_end;
}

// ----- laws -----

/// Every operation on the game state keeps the pause menu open only while
/// the simulation is paused: the keyboard shortcuts, the speed panel, the
/// passport button, the pause menu entries, world clicks, and the initial
/// state.
pub proof fn lemma_pause_menu_implies_paused(
    g: GameUiState,
    keys: KeyPresses,
    has_selection: bool,
    button: SpeedButtonKind,
    action: PauseMenuAction,
    pick: Option<CellPick>,
)
    requires
        g.inv(),
    ensures
        game_after_keys(g, keys, has_selection).inv(),
        after_speed_button(g, button).inv(),
        after_passport_button(g, has_selection).inv(),
        after_pause_menu(g, action).inv(),
        game_after_pick(g, pick).inv(),
        GameUiState::initial().inv(),
{
}

/// Every operation on the species ledger keeps the journal open only over
/// an open ledger with a selected species.
pub proof fn lemma_journal_implies_open_selection(
    s: SpeciesLedgerUiState,
    keys: KeyPresses,
    sel: SelectedCell,
    pick: Option<CellPick>,
    within_window: bool,
    species: u32,
)
    requires
        s.inv(),
    ensures
        ledger_after_keys(s, keys).inv(),
        toggled_ledger(s).inv(),
        ledger_after_pick(s, sel, pick, within_window).inv(),
        ledger_after_row_click(s, species, within_window).inv(),
        SpeciesLedgerUiState::initial().inv(),
{
}

/// After the keyboard shortcuts of a frame the passport is only open when a
/// cell is selected.
pub proof fn lemma_passport_needs_selection(g: GameUiState, keys: KeyPresses, has_selection: bool)
    ensures
        game_after_keys(g, keys, has_selection).passport_open ==> has_selection,
{
}

/// Escape always leaves the pause state equal to the menu state: it opens
/// the menu and pauses, or closes it and resumes.
pub proof fn lemma_escape_pairs_menu_and_pause(g: GameUiState)
    ensures
        escaped(g).paused == escaped(g).pause_menu_open,
        escaped(g).pause_menu_open == !g.pause_menu_open,
{
}

/// Closing the ledger forgets the species selection and the journal.
pub proof fn lemma_closing_ledger_clears_selection(s: SpeciesLedgerUiState)
    requires
        s.open,
    ensures
        !toggled_ledger(s).open,
        !toggled_ledger(s).journal_open,
        toggled_ledger(s).selected_species.is_none(),
        toggled_ledger(s).scroll_target_species.is_none(),
{
}

/// A world click on empty space deselects the cell and its species and
/// closes the passport and the journal.
pub proof fn lemma_empty_click_clears_selection(
    g: GameUiState,
    s: SpeciesLedgerUiState,
    sel: SelectedCell,
    within_window: bool,
)
    ensures
        selection_after_pick(sel, None).cell_id.is_none(),
        ledger_after_pick(s, sel, None, within_window).selected_species.is_none(),
        !ledger_after_pick(s, sel, None, within_window).journal_open,
        !game_after_pick(g, None).passport_open,
{
}

} // verus!
