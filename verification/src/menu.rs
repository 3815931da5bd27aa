use vstd::prelude::*;
use crate::chance::random_u64;
use crate::text::{append_decimal, decimal_text};

verus! {

/// A collapsible section of the settings column.
#[derive(Clone, Copy, PartialEq, Eq, Structural, Debug)]
pub enum MenuSection {
    Advanced,
    Shapes,
    Keybinds,
}

/// Which settings sections are expanded.
#[derive(Clone, Copy, PartialEq, Eq, Structural, Debug)]
pub struct MenuUiState {
    pub advanced_open: bool,
    pub shapes_open: bool,
    pub keybinds_open: bool,
}

impl MenuUiState {
    /// At most one section is expanded.
    pub open spec fn inv(self) -> bool {
        &&& !(self.advanced_open && self.shapes_open)
        &&& !(self.advanced_open && self.keybinds_open)
        &&& !(self.shapes_open && self.keybinds_open)
    }
}

impl Default for MenuUiState {
    fn default() -> (state: Self)
        ensures
            !state.advanced_open && !state.shapes_open && !state.keybinds_open,
    {
        MenuUiState { advanced_open: false, shapes_open: false, keybinds_open: false }
    }
}

/// Whether `section` is expanded.
pub open spec fn section_open(state: MenuUiState, section: MenuSection) -> bool {
    match section {
        MenuSection::Advanced => state.advanced_open,
        MenuSection::Shapes => state.shapes_open,
        MenuSection::Keybinds => state.keybinds_open,
    }
}

/// The sections after a click on the header of `section`: it toggles, and
/// expanding it collapses the others.
pub open spec fn toggled_section(state: MenuUiState, section: MenuSection) -> MenuUiState {
    if section_open(state, section) {
        match section {
            MenuSection::Advanced => MenuUiState { advanced_open: false, ..state },
            MenuSection::Shapes => MenuUiState { shapes_open: false, ..state },
            MenuSection::Keybinds => MenuUiState { keybinds_open: false, ..state },
        }
    } else {
        MenuUiState {
            advanced_open: section == MenuSection::Advanced,
            shapes_open: section == MenuSection::Shapes,
            keybinds_open: section == MenuSection::Keybinds,
        }
    }
}

/// Whether the body of `section` is displayed.
pub fn menu_section_visible(state: &MenuUiState, section: MenuSection) -> (visible: bool)
    ensures
        visible == section_open(*state, section),
{
    match section {
        MenuSection::Advanced => state.advanced_open,
        MenuSection::Shapes => state.shapes_open,
        MenuSection::Keybinds => state.keybinds_open,
    }
}

/// Handles a click on a section header.
pub fn toggle_menu_section(section: MenuSection, state: &mut MenuUiState)
    ensures
        *final(state) == toggled_section(*old(state), section),
{
    match section {
        MenuSection::Advanced => {
            state.advanced_open = !state.advanced_open;
            if state.advanced_open {
                state.shapes_open = false;
                state.keybinds_open = false;
            }
        },
        MenuSection::Shapes => {
            state.shapes_open = !state.shapes_open;
            if state.shapes_open {
                state.advanced_open = false;
                state.keybinds_open = false;
            }
        },
        MenuSection::Keybinds => {
            state.keybinds_open = !state.keybinds_open;
            if state.keybinds_open {
                state.advanced_open = false;
                state.shapes_open = false;
            }
        },
    }
}

/// Section headers work like an accordion: starting with at most one
/// section expanded (as initially), at most one is expanded after any
/// click, and a click on the expanded section collapses everything.
pub proof fn lemma_sections_accordion(state: MenuUiState, section: MenuSection)
    requires
        state.inv(),
    ensures
        toggled_section(state, section).inv(),
        section_open(state, section) ==> !section_open(toggled_section(state, section), MenuSection::Advanced)
            && !section_open(toggled_section(state, section), MenuSection::Shapes)
            && !section_open(toggled_section(state, section), MenuSection::Keybinds),
{
}

/// A settings preset offered by the launch menu.
#[derive(Clone, Copy, PartialEq, Eq, Structural, Debug)]
pub enum MenuPreset {
    MicroTest,
    Simulator,
    Balanced,
    Performance,
    Stress,
}

/// Outline of the arena.
#[derive(Clone, Copy, PartialEq, Eq, Structural, Debug)]
pub enum ArenaShape {
    Rectangle,
    Circle,
}

/// The arena shape offered after `shape` by the shape button.
pub open spec fn following_shape(shape: ArenaShape) -> ArenaShape {
    match shape {
        ArenaShape::Rectangle => ArenaShape::Circle,
        ArenaShape::Circle => ArenaShape::Rectangle,
    }
}

/// The next arena shape, cycling through them.
pub fn next_arena_shape(shape: ArenaShape) -> (next: ArenaShape)
    ensures
        next == following_shape(shape),
{
    match shape {
        ArenaShape::Rectangle => ArenaShape::Circle,
        ArenaShape::Circle => ArenaShape::Rectangle,
    }
}

/// The integer, on/off and arena shape launch settings edited by the menu.
#[derive(Clone, Copy, PartialEq, Eq, Structural, Debug)]
pub struct LaunchSettings {
    pub cells: usize,
    pub food: usize,
    pub obstacles: usize,
    pub food_growers: usize,
    pub seed: u64,
    pub vsync: bool,
    pub segmented_cells: bool,
    pub random_cell_geometry: bool,
    pub arena_shape: ArenaShape,
}

/// Settings after choosing a preset. Micro test and Simulator also return
/// to a rectangular arena with hand-made segmented cell geometry; the others
/// keep the shape and those switches. (The arena size and collision
/// settings, which are floating point, are set by the caller.)
pub open spec fn with_preset(s: LaunchSettings, preset: MenuPreset) -> LaunchSettings {
    match preset {
        MenuPreset::MicroTest => LaunchSettings {
            cells: 1, food: 100, obstacles: 0, food_growers: 1, arena_shape: ArenaShape::Rectangle,
            random_cell_geometry: false, segmented_cells: true, ..s
        },
        MenuPreset::Simulator => LaunchSettings {
            cells: 10000, food: 3000, obstacles: 30, food_growers: 6, arena_shape: ArenaShape::Rectangle,
            random_cell_geometry: false, segmented_cells: true, ..s
        },
        MenuPreset::Balanced => LaunchSettings { cells: 8000, food: 2400, obstacles: 24, food_growers: 5, ..s },
        MenuPreset::Performance => LaunchSettings { cells: 5000, food: 1400, obstacles: 18, food_growers: 3, ..s },
        MenuPreset::Stress => LaunchSettings { cells: 20000, food: 3500, obstacles: 36, food_growers: 6, ..s },
    }
}

/// Applies the integer and on/off part of a preset.
pub fn apply_preset(preset: MenuPreset, settings: &mut LaunchSettings)
    ensures
        *final(settings) == with_preset(*old(settings), preset),
{
    match preset {
        MenuPreset::MicroTest => {
            settings.cells = 1;
            settings.food = 100;
            settings.obstacles = 0;
            settings.food_growers = 1;
            settings.arena_shape = ArenaShape::Rectangle;
            settings.random_cell_geometry = false;
            settings.segmented_cells = true;
        },
        MenuPreset::Simulator => {
            settings.cells = 10000;
            settings.food = 3000;
            settings.obstacles = 30;
            settings.food_growers = 6;
            settings.arena_shape = ArenaShape::Rectangle;
            settings.random_cell_geometry = false;
            settings.segmented_cells = true;
        },
        MenuPreset::Balanced => {
            settings.cells = 8000;
            settings.food = 2400;
            settings.obstacles = 24;
            settings.food_growers = 5;
        },
        MenuPreset::Performance => {
            settings.cells = 5000;
            settings.food = 1400;
            settings.obstacles = 18;
            settings.food_growers = 3;
        },
        MenuPreset::Stress => {
            settings.cells = 20000;
            settings.food = 3500;
            settings.obstacles = 36;
            settings.food_growers = 6;
        },
    }
}

/// Settings forced into their valid ranges before a launch: at least one
/// cell and one food item, at most 500 obstacles, 1 to 100 food growers.
pub open spec fn clamped(s: LaunchSettings) -> LaunchSettings {
    LaunchSettings {
        cells: if s.cells < 1 { 1 } else { s.cells },
        food: if s.food < 1 { 1 } else { s.food },
        obstacles: if s.obstacles > 500 { 500 } else { s.obstacles },
        food_growers: if s.food_growers < 1 { 1 } else if s.food_growers > 100 { 100 } else { s.food_growers },
        ..s
    }
}

/// Forces the integer settings into their valid ranges.
pub fn clamp_launch_config(settings: &mut LaunchSettings)
    ensures
        *final(settings) == clamped(*old(settings)),
{
    if settings.cells < 1 {
        settings.cells = 1;
    }
    if settings.food < 1 {
        settings.food = 1;
    }
    if settings.obstacles > 500 {
        settings.obstacles = 500;
    }
    if settings.food_growers < 1 {
        settings.food_growers = 1;
    } else if settings.food_growers > 100 {
        settings.food_growers = 100;
    }
}

/// Clamping leaves settings in range and changes nothing that already is.
pub proof fn lemma_clamp_is_idempotent(s: LaunchSettings)
    ensures
        clamped(clamped(s)) == clamped(s),
        clamped(s).cells >= 1 && clamped(s).food >= 1,
        clamped(s).obstacles <= 500,
        1 <= clamped(s).food_growers <= 100,
{
}

/// Random seeds stay below this bound, so that they fit the seed field.
pub const SEED_BOUND: u64 = 1000000000000;

/// The seed drawn from a random number.
pub fn seed_from_random(r: u64) -> (seed: u64)
    ensures
        seed == r % SEED_BOUND,
        seed < SEED_BOUND,
{
    r % SEED_BOUND
}

/// A random seed for a new world.
pub fn randomize_seed(settings: &mut LaunchSettings)
    ensures
        final(settings).seed < SEED_BOUND,
        *final(settings) == (LaunchSettings { seed: final(settings).seed, ..*old(settings) }),
{
    settings.seed = seed_from_random(random_u64());
}

/// The text fields of the launch menu.
#[derive(Clone, Copy, PartialEq, Eq, Structural, Debug)]
pub enum MenuField {
    Cells,
    Food,
    Width,
    Height,
    Obstacles,
    FoodGrowers,
    Seed,
}

/// A button of the launch menu.
#[derive(Clone, Copy, PartialEq, Eq, Structural, Debug)]
pub enum MenuButton {
    Start,
    Preset(MenuPreset),
    Section(MenuSection),
    Vsync,
    SegmentedCells,
    ArenaShape,
    RandomizeSeed,
    RandomGeometry,
    Field(MenuField),
}

/// What the application must do after a menu button press, beyond the
/// settings and sections the press already changed.
#[derive(Clone, Copy, PartialEq, Eq, Structural, Debug)]
pub enum MenuCommand {
    Nothing,
    /// Clamp the remaining settings and start the simulation.
    StartGame,
    /// Drop the keyboard focus of the text fields.
    ClearFocus,
    /// Give the keyboard focus to this field alone.
    Focus(MenuField),
}

/// Handles a press on a launch menu button. Start clamps the settings,
/// presets fill them in, section headers fold, the switches toggle, the
/// shape button moves to the next arena shape, the
/// dice draws a new seed (dropping the text focus) and a field takes focus.
pub fn menu_interaction_system(button: MenuButton, settings: &mut LaunchSettings, menu_state: &mut MenuUiState) -> (command: MenuCommand)
    ensures
        match button {
            MenuButton::Start => *final(settings) == clamped(*old(settings)) && *final(menu_state) == *old(menu_state)
                && command == MenuCommand::StartGame,
            MenuButton::Preset(p) => *final(settings) == with_preset(*old(settings), p) && *final(menu_state) == *old(menu_state)
                && command == MenuCommand::Nothing,
            MenuButton::Section(sec) => *final(settings) == *old(settings) && *final(menu_state) == toggled_section(*old(menu_state), sec)
                && command == MenuCommand::Nothing,
            MenuButton::Vsync => *final(settings) == (LaunchSettings { vsync: !old(settings).vsync, ..*old(settings) })
                && *final(menu_state) == *old(menu_state) && command == MenuCommand::Nothing,
            MenuButton::SegmentedCells => *final(settings) == (LaunchSettings { segmented_cells: !old(settings).segmented_cells, ..*old(settings) })
                && *final(menu_state) == *old(menu_state) && command == MenuCommand::Nothing,
            MenuButton::ArenaShape => *final(settings) == (LaunchSettings { arena_shape: following_shape(old(settings).arena_shape), ..*old(settings) })
                && *final(menu_state) == *old(menu_state) && command == MenuCommand::Nothing,
            MenuButton::RandomizeSeed => final(settings).seed < SEED_BOUND
                && *final(settings) == (LaunchSettings { seed: final(settings).seed, ..*old(settings) })
                && *final(menu_state) == *old(menu_state) && command == MenuCommand::ClearFocus,
            MenuButton::RandomGeometry => *final(settings) == (LaunchSettings { random_cell_geometry: !old(settings).random_cell_geometry, ..*old(settings) })
                && *final(menu_state) == *old(menu_state) && command == MenuCommand::Nothing,
            MenuButton::Field(f) => *final(settings) == *old(settings) && *final(menu_state) == *old(menu_state)
                && command == MenuCommand::Focus(f),
        },
{
    match button {
        MenuButton::Start => {
            clamp_launch_config(settings);
            MenuCommand::StartGame
        },
        MenuButton::Preset(p) => {
            apply_preset(p, settings);
            MenuCommand::Nothing
        },
        MenuButton::Section(sec) => {
            toggle_menu_section(sec, menu_state);
            MenuCommand::Nothing
        },
        MenuButton::Vsync => {
            settings.vsync = !settings.vsync;
            MenuCommand::Nothing
        },
        MenuButton::SegmentedCells => {
            settings.segmented_cells = !settings.segmented_cells;
            MenuCommand::Nothing
        },
        MenuButton::ArenaShape => {
            settings.arena_shape = next_arena_shape(settings.arena_shape);
            MenuCommand::Nothing
        },
        MenuButton::RandomizeSeed => {
            randomize_seed(settings);
            MenuCommand::ClearFocus
        },
        MenuButton::RandomGeometry => {
            settings.random_cell_geometry = !settings.random_cell_geometry;
            MenuCommand::Nothing
        },
        MenuButton::Field(f) => MenuCommand::Focus(f),
    }
}

/// Label of an on/off setting.
pub fn binary_label(enabled: bool) -> (label: String)
    ensures
        label@ == (if enabled { "Вкл"@ } else { "Выкл"@ }),
{
    if enabled {
        String::from_str("Вкл")
    } else {
        String::from_str("Выкл")
    }
}

/// Label of the vertical sync setting.
pub fn vsync_label(enabled: bool) -> (label: String)
    ensures
        label@ == (if enabled { "Вкл"@ } else { "Выкл"@ }),
{
    binary_label(enabled)
}

/// A value shown on the launch menu.
#[derive(Clone, Copy, PartialEq, Eq, Structural, Debug)]
pub enum MenuTextValue {
    Cells,
    Food,
    Width,
    Height,
    Obstacles,
    FoodGrowers,
    Seed,
    Vsync,
    Arena,
    ArenaShape,
    RandomGeometry,
    SegmentedCells,
}

/// Text of a menu value: counts and the seed in decimal, switches as on/off
/// labels. The arena size and shape are shown by the caller, which holds
/// them.
pub open spec fn menu_value_label(value: MenuTextValue, s: LaunchSettings) -> Option<Seq<char>> {
    match value {
        MenuTextValue::Cells => Some(decimal_text(s.cells as nat)),
        MenuTextValue::Food => Some(decimal_text(s.food as nat)),
        MenuTextValue::Obstacles => Some(decimal_text(s.obstacles as nat)),
        MenuTextValue::FoodGrowers => Some(decimal_text(s.food_growers as nat)),
        MenuTextValue::Seed => Some(decimal_text(s.seed as nat)),
        MenuTextValue::Vsync => Some(if s.vsync { "Вкл"@ } else { "Выкл"@ }),
        MenuTextValue::SegmentedCells => Some(if s.segmented_cells { "Вкл"@ } else { "Выкл"@ }),
        MenuTextValue::RandomGeometry => Some(if s.random_cell_geometry { "ВКЛ"@ } else { "ВЫКЛ"@ }),
        MenuTextValue::Width | MenuTextValue::Height | MenuTextValue::Arena | MenuTextValue::ArenaShape => None,
    }
}

fn decimal_string(n: u64) -> (text: String)
    ensures
        text@ == decimal_text(n as nat),
{
    let mut text = String::new();
    append_decimal(&mut text, n);
    assert(text@ =~= decimal_text(n as nat));
    text
}

/// The text of a launch menu value label, or `None` for the arena size and
/// shape.
pub fn menu_value_text(value: MenuTextValue, settings: &LaunchSettings) -> (text: Option<String>)
    ensures
        match text {
            Some(t) => menu_value_label(value, *settings) == Some(t@),
            None => menu_value_label(value, *settings).is_none(),
        },
{
    match value {
        MenuTextValue::Cells => Some(decimal_string(settings.cells as u64)),
        MenuTextValue::Food => Some(decimal_string(settings.food as u64)),
        MenuTextValue::Obstacles => Some(decimal_string(settings.obstacles as u64)),
        MenuTextValue::FoodGrowers => Some(decimal_string(settings.food_growers as u64)),
        MenuTextValue::Seed => Some(decimal_string(settings.seed)),
        MenuTextValue::Vsync => Some(vsync_label(settings.vsync)),
        MenuTextValue::SegmentedCells => Some(binary_label(settings.segmented_cells)),
        MenuTextValue::RandomGeometry => Some(
            if settings.random_cell_geometry {
                String::from_str("ВКЛ")
            } else {
                String::from_str("ВЫКЛ")
            },
        ),
        MenuTextValue::Width | MenuTextValue::Height | MenuTextValue::Arena | MenuTextValue::ArenaShape => None,
    }
}

/// A key event while a text field has the focus.
pub enum FieldKey {
    /// Typed text.
    Characters(String),
    Backspace,
    /// Any other key, which the fields ignore.
    Other,
}

/// Whether every character is an ASCII digit.
pub open spec fn all_ascii_digits(s: Seq<char>) -> bool {
    forall|i: int| 0 <= i < s.len() ==> '0' <= #[trigger] s[i] <= '9'
}

/// Longest text a field takes: 12 bytes for the seed, 8 for the others.
pub open spec fn field_max_len(field: MenuField) -> int {
    if field == MenuField::Seed { 12 } else { 8 }
}

/// One key applied to the field text, and whether the text counts as
/// changed: digits are appended while the text is shorter (in bytes) than
/// the limit, other typed text is ignored, and backspace drops the last
/// character.
pub open spec fn edit_step(text: Seq<char>, changed: bool, key: FieldKey, max_len: int) -> (Seq<char>, bool) {
    match key {
        FieldKey::Characters(typed) => if all_ascii_digits(typed@) && ((vstd::utf8::encode_utf8(text).len() as usize) < max_len) {
            (text + typed@, true)
        } else {
            (text, changed)
        },
        FieldKey::Backspace => (if text.len() > 0 { text.drop_last() } else { text }, true),
        FieldKey::Other => (text, changed),
    }
}

/// The field text after a run of keys, and whether it changed.
pub open spec fn edited_field(text: Seq<char>, keys: Seq<FieldKey>, max_len: int) -> (Seq<char>, bool)
    decreases keys.len(),
{
    if keys.len() == 0 {
        (text, false)
    } else {
        let (t, changed) = edited_field(text, keys.drop_last(), max_len);
        edit_step(t, changed, keys.last(), max_len)
    }
}

/// Decimal value of a digit string.
pub open spec fn decimal_value(s: Seq<char>) -> int
    decreases s.len(),
{
    if s.len() == 0 { 0 } else { decimal_value(s.drop_last()) * 10 + (s.last() as int - '0' as int) }
}

/// The unsigned number a text spells, as `usize` parsing reads it: decimal
/// digits, optionally after a `+`, with a value that fits in `usize`.
pub open spec fn parsed_usize(s: Seq<char>) -> Option<usize> {
    let digits = if s.len() > 1 && s[0] == '+' { s.drop_first() } else { s };
    if digits.len() > 0 && all_ascii_digits(digits) && decimal_value(digits) <= usize::MAX {
        Some(decimal_value(digits) as usize)
    } else {
        None
    }
}

proof fn lemma_decimal_value_grows(s: Seq<char>, i: int)
    requires
        0 <= i <= s.len(),
        all_ascii_digits(s),
    ensures
        0 <= decimal_value(s.take(i)) <= decimal_value(s),
    decreases s.len() - i,
{
    if i < s.len() {
        lemma_decimal_value_grows(s, i + 1);
        assert(s.take(i + 1).drop_last() =~= s.take(i));
        assert(s.take(i + 1).last() == s[i]);
        assert('0' <= s[i] <= '9');
    } else {
        assert(s.take(i) =~= s);
        lemma_decimal_value_nonneg(s);
    }
}

proof fn lemma_decimal_value_nonneg(s: Seq<char>)
    requires
        all_ascii_digits(s),
    ensures
        decimal_value(s) >= 0,
    decreases s.len(),
{
    if s.len() > 0 {
        let d = s.drop_last();
        assert forall|i: int| 0 <= i < d.len() implies '0' <= #[trigger] d[i] <= '9' by {
            assert(d[i] == s[i]);
        }
        lemma_decimal_value_nonneg(d);
        assert('0' <= s[s.len() - 1] <= '9');
    }
}

/// Keys never put anything but digits into a field that holds digits:
/// typed text is taken only when it is all digits, and backspace removes.
pub proof fn lemma_field_keeps_digits(text: Seq<char>, keys: Seq<FieldKey>, max_len: int)
    requires
        all_ascii_digits(text),
    ensures
        all_ascii_digits(edited_field(text, keys, max_len).0),
    decreases keys.len(),
{
    if keys.len() > 0 {
        lemma_field_keeps_digits(text, keys.drop_last(), max_len);
        let t = edited_field(text, keys.drop_last(), max_len).0;
        match keys.last() {
            FieldKey::Characters(typed) => {
                if all_ascii_digits(typed@) {
                    assert forall|i: int| 0 <= i < (t + typed@).len() implies '0' <= #[trigger] (t + typed@)[i] <= '9' by {
                        if i >= t.len() {
                            assert((t + typed@)[i] == typed@[i - t.len()]);
                        }
                    }
                }
            },
            FieldKey::Backspace => {
                if t.len() > 0 {
                    assert forall|i: int| 0 <= i < t.drop_last().len() implies '0' <= #[trigger] t.drop_last()[i] <= '9' by {
                        assert(t.drop_last()[i] == t[i]);
                    }
                }
            },
            FieldKey::Other => {},
        }
    }
}

proof fn lemma_digits_encode_one_byte_each(s: Seq<char>)
    requires
        all_ascii_digits(s),
    ensures
        vstd::utf8::encode_utf8(s).len() == s.len(),
    decreases s.len(),
{
    if s.len() > 0 {
        let rest = s.drop_first();
        assert forall|i: int| 0 <= i < rest.len() implies '0' <= #[trigger] rest[i] <= '9' by {
            assert(rest[i] == s[i + 1]);
        }
        lemma_digits_encode_one_byte_each(rest);
        assert('0' <= s[0] <= '9');
        assert(vstd::utf8::has_width_1_encoding(s[0] as u32));
    }
}

/// Every typed text in the run is a single character, as keyboard events
/// deliver them.
pub open spec fn single_char_keys(keys: Seq<FieldKey>) -> bool {
    forall|k: int| 0 <= k < keys.len() ==> match #[trigger] keys[k] {
        FieldKey::Characters(typed) => typed@.len() <= 1,
        _ => true,
    }
}

/// A field that holds digits within its length limit stays within the limit
/// when the keys type one character at a time.
pub proof fn lemma_field_stays_within_limit(text: Seq<char>, keys: Seq<FieldKey>, max_len: int)
    requires
        all_ascii_digits(text),
        text.len() <= max_len <= usize::MAX,
        single_char_keys(keys),
    ensures
        edited_field(text, keys, max_len).0.len() <= max_len,
    decreases keys.len(),
{
    if keys.len() > 0 {
        let d = keys.drop_last();
        assert forall|k: int| 0 <= k < d.len() implies match #[trigger] d[k] {
            FieldKey::Characters(typed) => typed@.len() <= 1,
            _ => true,
        } by {
            assert(d[k] == keys[k]);
        }
        lemma_field_stays_within_limit(text, d, max_len);
        lemma_field_keeps_digits(text, d, max_len);
        let t = edited_field(text, d, max_len).0;
        lemma_digits_encode_one_byte_each(t);
        let last = keys[keys.len() - 1];
        assert(last == keys.last());
        match last {
            FieldKey::Characters(typed) => {
                assert(typed@.len() <= 1);
                assert(vstd::utf8::encode_utf8(t).len() as usize == t.len());
            },
            _ => {},
        }
    }
}

/// Reads the unsigned number of a field text; `None` for an empty text, a
/// non-digit or an overflow.
#[verifier::spinoff_prover]
pub fn parse_usize(text: &str) -> (value: Option<usize>)
    ensures
        value == parsed_usize(text@),
{
    let n = text.unicode_len();
    let start: usize = if n > 1 && text.get_char(0) == '+' { 1 } else { 0 };
    let ghost digits = if n > 1 && text@[0] == '+' { text@.drop_first() } else { text@ };
    assert(digits =~= text@.skip(start as int));
    if start == n {
        return None;
    }
    let mut value: usize = 0;
    let mut i = start;
    while i < n
        invariant
            n == text@.len(),
            start <= i <= n,
            digits == text@.skip(start as int),
            digits == (if text@.len() > 1 && text@[0] == '+' { text@.drop_first() } else { text@ }),
            all_ascii_digits(digits.take(i - start)),
            value as int == decimal_value(digits.take(i - start)),
        decreases n - i,
    {
        let c = text.get_char(i);
        let ghost k = i - start;
        assert(digits.take(k + 1).drop_last() =~= digits.take(k));
        assert(digits.take(k + 1).last() == c);
        assert(digits[k] == c);
        if c < '0' || c > '9' {
            assert(!all_ascii_digits(digits));
            assert(parsed_usize(text@).is_none());
            return None;
        }
        assert forall|j: int| 0 <= j < k + 1 implies '0' <= #[trigger] digits.take(k + 1)[j] <= '9' by {
            if j < k {
                assert(digits.take(k + 1)[j] == digits.take(k)[j]);
            }
        }
        let d = (c as u32 - '0' as u32) as usize;
        assert(decimal_value(digits.take(k + 1)) == value * 10 + d);
        match value.checked_mul(10) {
            Some(tens) => match tens.checked_add(d) {
                Some(next) => {
                    value = next;
                },
                None => {
                    proof {
                        lemma_digits_overflow(digits, k + 1);
                    }
                    assert(parsed_usize(text@).is_none());
                    return None;
                },
            },
            None => {
                proof {
                    lemma_digits_overflow(digits, k + 1);
                }
                assert(parsed_usize(text@).is_none());
                return None;
            },
        }
        i = i + 1;
    }
    assert(digits.take(n - start) =~= digits);
    Some(value)
}

/// Once a prefix of the digits exceeds `usize`, the whole number does, or
/// the text is not all digits.
proof fn lemma_digits_overflow(digits: Seq<char>, k: int)
    requires
        0 < k <= digits.len(),
        all_ascii_digits(digits.take(k)),
        decimal_value(digits.take(k)) > usize::MAX,
    ensures
        parsed_usize_digits_fail(digits),
{
    if all_ascii_digits(digits) {
        lemma_decimal_value_grows(digits, k);
    }
}

/// The digits do not spell a number that fits in `usize`.
pub open spec fn parsed_usize_digits_fail(digits: Seq<char>) -> bool {
    !(all_ascii_digits(digits) && decimal_value(digits) <= usize::MAX)
}

fn is_ascii_digit_text(typed: &str) -> (digits: bool)
    ensures
        digits == all_ascii_digits(typed@),
{
    let n = typed.unicode_len();
    let mut i: usize = 0;
    while i < n
        invariant
            n == typed@.len(),
            i <= n,
            forall|j: int| 0 <= j < i ==> '0' <= #[trigger] typed@[j] <= '9',
        decreases n - i,
    {
        let c = typed.get_char(i);
        if c < '0' || c > '9' {
            return false;
        }
        i = i + 1;
    }
    true
}

/// Applies one key to the field text.
fn apply_field_key(text: &mut String, changed: &mut bool, key: &FieldKey, max_len: usize)
    ensures
        (final(text)@, *final(changed)) == edit_step(old(text)@, *old(changed), *key, max_len as int),
{
    match key {
        FieldKey::Characters(typed) => {
            let current = text.as_str();
            assert(current@ == text@);
            if is_ascii_digit_text(typed.as_str()) && current.len() < max_len {
                text.append(typed.as_str());
                *changed = true;
            }
        },
        FieldKey::Backspace => {
            let n = text.as_str().unicode_len();
            if n > 0 {
                let shorter = String::from_str(text.as_str().substring_char(0, n - 1));
                assert(text@.subrange(0, n - 1) =~= text@.drop_last());
                *text = shorter;
            }
            *changed = true;
        },
        FieldKey::Other => {},
    }
}

/// Applies the keys typed into the focused field `field` whose text is
/// `current`. When the text changed, returns the new text and its number
/// (0 when it does not parse), and stores that number in the matching
/// setting; width and height are stored by the caller.
pub fn keyboard_input_system(field: MenuField, current: &str, keys: &Vec<FieldKey>, settings: &mut LaunchSettings) -> (edit: Option<(String, usize)>)
    ensures
        ({
            let (text, changed) = edited_field(current@, keys@, field_max_len(field));
            let value: usize = match parsed_usize(text) { Some(v) => v, None => 0 };
            &&& edit.is_some() == changed
            &&& changed ==> edit.unwrap().0@ == text && edit.unwrap().1 == value
            &&& *final(settings) == (if !changed { *old(settings) } else {
                match field {
                    MenuField::Cells => LaunchSettings { cells: value, ..*old(settings) },
                    MenuField::Food => LaunchSettings { food: value, ..*old(settings) },
                    MenuField::Obstacles => LaunchSettings { obstacles: value, ..*old(settings) },
                    MenuField::FoodGrowers => LaunchSettings { food_growers: value, ..*old(settings) },
                    MenuField::Seed => LaunchSettings { seed: value as u64, ..*old(settings) },
                    MenuField::Width | MenuField::Height => *old(settings),
                }
            })
        }),
{
    let max_len: usize = match field {
        MenuField::Seed => 12,
        _ => 8,
    };
    let mut text = String::from_str(current);
    let mut changed = false;
    let mut i: usize = 0;
    while i < keys.len()
        invariant
            i <= keys.len(),
            max_len as int == field_max_len(field),
            (text@, changed) == edited_field(current@, keys@.take(i as int), max_len as int),
        decreases keys.len() - i,
    {
        assert(keys@.take(i + 1).drop_last() =~= keys@.take(i as int));
        assert(keys@.take(i + 1).last() == keys@[i as int]);
        apply_field_key(&mut text, &mut changed, &keys[i], max_len);
        i = i + 1;
    }
    assert(keys@.take(keys.len() as int) =~= keys@);
    if !changed {
        return None;
    }
    let value = match parse_usize(text.as_str()) {
        Some(v) => v,
        None => 0,
    };
    match field {
        MenuField::Cells => settings.cells = value,
        MenuField::Food => settings.food = value,
        MenuField::Obstacles => settings.obstacles = value,
        MenuField::FoodGrowers => settings.food_growers = value,
        MenuField::Seed => settings.seed = value as u64,
        MenuField::Width | MenuField::Height => {},
    }
    Some((text, value))
}

} // verus!
