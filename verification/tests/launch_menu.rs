use organoids::menu::{
    next_arena_shape, ArenaShape,
    apply_preset, binary_label, clamp_launch_config, keyboard_input_system, menu_interaction_system,
    menu_section_visible, parse_usize, randomize_seed, seed_from_random, toggle_menu_section, vsync_label, FieldKey,
    LaunchSettings, MenuButton, MenuCommand, MenuField, MenuPreset, MenuSection, MenuTextValue, MenuUiState, SEED_BOUND,
    menu_value_text,
};

fn settings() -> LaunchSettings {
    LaunchSettings {
        cells: 8000,
        food: 2400,
        obstacles: 24,
        food_growers: 5,
        seed: 42,
        vsync: true,
        segmented_cells: false,
        random_cell_geometry: true,
        arena_shape: ArenaShape::Circle,
    }
}

fn typed(text: &str) -> FieldKey {
    FieldKey::Characters(text.to_string())
}

#[test]
fn sections_fold_like_an_accordion() {
    let mut state = MenuUiState::default();
    toggle_menu_section(MenuSection::Advanced, &mut state);
    assert!(menu_section_visible(&state, MenuSection::Advanced));
    toggle_menu_section(MenuSection::Shapes, &mut state);
    assert!(!menu_section_visible(&state, MenuSection::Advanced));
    assert!(menu_section_visible(&state, MenuSection::Shapes));
    toggle_menu_section(MenuSection::Shapes, &mut state);
    assert_eq!(state, MenuUiState::default());
}

#[test]
fn presets_fill_in_the_settings() {
    let mut s = settings();
    apply_preset(MenuPreset::MicroTest, &mut s);
    assert_eq!((s.cells, s.food, s.obstacles, s.food_growers), (1, 100, 0, 1));
    assert!(s.segmented_cells && !s.random_cell_geometry);
    assert_eq!(s.arena_shape, ArenaShape::Rectangle);
    assert_eq!(s.seed, 42);
    assert!(s.vsync);

    let mut s = settings();
    apply_preset(MenuPreset::Stress, &mut s);
    assert_eq!((s.cells, s.food, s.obstacles, s.food_growers), (20000, 3500, 36, 6));
    assert!(!s.segmented_cells && s.random_cell_geometry);
    assert_eq!(s.arena_shape, ArenaShape::Circle);

    let mut s = settings();
    apply_preset(MenuPreset::Performance, &mut s);
    assert_eq!((s.cells, s.food, s.obstacles, s.food_growers), (5000, 1400, 18, 3));
    assert_eq!(s.arena_shape, ArenaShape::Circle);
    apply_preset(MenuPreset::Simulator, &mut s);
    assert_eq!((s.cells, s.food, s.obstacles, s.food_growers), (10000, 3000, 30, 6));
    assert_eq!(s.arena_shape, ArenaShape::Rectangle);
    assert_eq!(next_arena_shape(ArenaShape::Rectangle), ArenaShape::Circle);
    apply_preset(MenuPreset::Balanced, &mut s);
    assert_eq!((s.cells, s.food, s.obstacles, s.food_growers), (8000, 2400, 24, 5));
}

#[test]
fn clamping_forces_valid_ranges_once() {
    let mut s = LaunchSettings { cells: 0, food: 0, obstacles: 900, food_growers: 0, ..settings() };
    clamp_launch_config(&mut s);
    assert_eq!((s.cells, s.food, s.obstacles, s.food_growers), (1, 1, 500, 1));
    let once = s;
    clamp_launch_config(&mut s);
    assert_eq!(s, once);
    let mut s = LaunchSettings { food_growers: 101, ..settings() };
    clamp_launch_config(&mut s);
    assert_eq!(s.food_growers, 100);
    let mut s = settings();
    clamp_launch_config(&mut s);
    assert_eq!(s, settings());
}

#[test]
fn seeds_stay_below_the_bound() {
    assert_eq!(seed_from_random(5), 5);
    assert_eq!(seed_from_random(SEED_BOUND + 7), 7);
    assert!(seed_from_random(u64::MAX) < SEED_BOUND);
    let mut s = settings();
    for _ in 0..20 {
        randomize_seed(&mut s);
        assert!(s.seed < SEED_BOUND);
        assert_eq!(LaunchSettings { seed: 42, ..s }, settings());
    }
}

#[test]
fn menu_buttons() {
    let mut s = settings();
    let mut state = MenuUiState::default();
    assert_eq!(menu_interaction_system(MenuButton::Vsync, &mut s, &mut state), MenuCommand::Nothing);
    assert!(!s.vsync);
    assert_eq!(menu_interaction_system(MenuButton::SegmentedCells, &mut s, &mut state), MenuCommand::Nothing);
    assert!(s.segmented_cells);
    assert_eq!(menu_interaction_system(MenuButton::RandomGeometry, &mut s, &mut state), MenuCommand::Nothing);
    assert!(!s.random_cell_geometry);
    assert_eq!(menu_interaction_system(MenuButton::ArenaShape, &mut s, &mut state), MenuCommand::Nothing);
    assert_eq!(s.arena_shape, ArenaShape::Rectangle);
    assert_eq!(menu_interaction_system(MenuButton::ArenaShape, &mut s, &mut state), MenuCommand::Nothing);
    assert_eq!(s.arena_shape, ArenaShape::Circle);
    assert_eq!(
        menu_interaction_system(MenuButton::Field(MenuField::Seed), &mut s, &mut state),
        MenuCommand::Focus(MenuField::Seed)
    );
    assert_eq!(menu_interaction_system(MenuButton::RandomizeSeed, &mut s, &mut state), MenuCommand::ClearFocus);
    assert!(s.seed < SEED_BOUND);
    assert_eq!(
        menu_interaction_system(MenuButton::Section(MenuSection::Keybinds), &mut s, &mut state),
        MenuCommand::Nothing
    );
    assert!(state.keybinds_open);
    assert_eq!(
        menu_interaction_system(MenuButton::Preset(MenuPreset::MicroTest), &mut s, &mut state),
        MenuCommand::Nothing
    );
    assert_eq!(s.cells, 1);
    s.food = 0;
    assert_eq!(menu_interaction_system(MenuButton::Start, &mut s, &mut state), MenuCommand::StartGame);
    assert_eq!(s.food, 1);
}

#[test]
fn on_off_labels() {
    assert_eq!(binary_label(true), "Вкл");
    assert_eq!(binary_label(false), "Выкл");
    assert_eq!(vsync_label(true), "Вкл");
    assert_eq!(vsync_label(false), "Выкл");
}

#[test]
fn parse_usize_matches_std() {
    for text in ["", "0", "7", "+5", "+", "++5", "-1", "12a", "007", " 5", "18446744073709551615", "18446744073709551616", "٣"] {
        assert_eq!(parse_usize(text), text.parse::<usize>().ok(), "{text:?}");
    }
}

#[test]
fn typing_digits_updates_the_setting() {
    let mut s = settings();
    let keys = vec![typed("1"), typed("2"), FieldKey::Other];
    let edit = keyboard_input_system(MenuField::Cells, "", &keys, &mut s);
    assert_eq!(edit, Some(("12".to_string(), 12)));
    assert_eq!(s.cells, 12);
}

#[test]
fn non_digits_and_other_keys_change_nothing() {
    let mut s = settings();
    let keys = vec![typed("a"), FieldKey::Other, typed("1x")];
    assert_eq!(keyboard_input_system(MenuField::Food, "24", &keys, &mut s), None);
    assert_eq!(s, settings());
}

#[test]
fn backspace_edits_and_empty_text_reads_as_zero() {
    let mut s = settings();
    let keys = vec![FieldKey::Backspace, FieldKey::Backspace, FieldKey::Backspace];
    let edit = keyboard_input_system(MenuField::Obstacles, "24", &keys, &mut s);
    assert_eq!(edit, Some((String::new(), 0)));
    assert_eq!(s.obstacles, 0);
}

#[test]
fn fields_stop_at_their_length_limit() {
    let mut s = settings();
    let keys: Vec<FieldKey> = (0..10).map(|_| typed("9")).collect();
    let edit = keyboard_input_system(MenuField::FoodGrowers, "", &keys, &mut s);
    assert_eq!(edit, Some(("99999999".to_string(), 99_999_999)));
    assert_eq!(s.food_growers, 99_999_999);

    let keys: Vec<FieldKey> = (0..14).map(|_| typed("1")).collect();
    let edit = keyboard_input_system(MenuField::Seed, "", &keys, &mut s);
    assert_eq!(edit, Some(("111111111111".to_string(), 111_111_111_111)));
    assert_eq!(s.seed, 111_111_111_111);
}

#[test]
fn width_and_height_are_stored_by_the_caller() {
    let mut s = settings();
    let edit = keyboard_input_system(MenuField::Width, "1", &vec![typed("0")], &mut s);
    assert_eq!(edit, Some(("10".to_string(), 10)));
    assert_eq!(s, settings());
}

#[test]
fn random_seeds_differ() {
    let mut s = settings();
    let mut seeds = Vec::new();
    for _ in 0..8 {
        randomize_seed(&mut s);
        seeds.push(s.seed);
    }
    seeds.sort();
    seeds.dedup();
    assert!(seeds.len() > 1);
}

#[test]
fn menu_value_labels() {
    let s = settings();
    assert_eq!(menu_value_text(MenuTextValue::Cells, &s), Some("8000".to_string()));
    assert_eq!(menu_value_text(MenuTextValue::Food, &s), Some("2400".to_string()));
    assert_eq!(menu_value_text(MenuTextValue::Obstacles, &s), Some("24".to_string()));
    assert_eq!(menu_value_text(MenuTextValue::FoodGrowers, &s), Some("5".to_string()));
    assert_eq!(menu_value_text(MenuTextValue::Seed, &s), Some("42".to_string()));
    assert_eq!(menu_value_text(MenuTextValue::Vsync, &s), Some("Вкл".to_string()));
    assert_eq!(menu_value_text(MenuTextValue::SegmentedCells, &s), Some("Выкл".to_string()));
    assert_eq!(menu_value_text(MenuTextValue::RandomGeometry, &s), Some("ВКЛ".to_string()));
    let off = LaunchSettings { random_cell_geometry: false, seed: u64::MAX, cells: 0, ..s };
    assert_eq!(menu_value_text(MenuTextValue::RandomGeometry, &off), Some("ВЫКЛ".to_string()));
    assert_eq!(menu_value_text(MenuTextValue::Seed, &off), Some(u64::MAX.to_string()));
    assert_eq!(menu_value_text(MenuTextValue::Cells, &off), Some("0".to_string()));
    for value in [MenuTextValue::Width, MenuTextValue::Height, MenuTextValue::Arena, MenuTextValue::ArenaShape] {
        assert_eq!(menu_value_text(value, &s), None);
    }
}
