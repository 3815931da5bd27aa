use organoids::audio::{
    choose_cell_effect, play_cell_audio_events, resolve_cell_effect, start_running_audio, CellAudioState,
    MAX_CELL_SOUNDS_PER_FRAME,
};
use organoids::genes::{
    gene_stat_descriptors, gene_tooltip_copy, species_journal_metric_label, GeneCategory, GeneStatId,
    SpeciesJournalMetric,
};
use organoids::wakes::{clear_cell_wake_trails, CellWakeTrails, MAX_VISIBLE_WAKE_PATCHES, WAKE_EMITTER_IDLE_FRAMES};

#[test]
fn repeated_draw_is_shifted_by_the_offset() {
    assert_eq!(resolve_cell_effect(5, Some(2), 2, 1), 3);
    assert_eq!(resolve_cell_effect(5, Some(4), 4, 3), 2);
    assert_eq!(resolve_cell_effect(5, Some(1), 2, 4), 2);
    assert_eq!(resolve_cell_effect(5, None, 2, 4), 2);
    assert_eq!(resolve_cell_effect(1, Some(0), 0, 0), 0);
}

#[test]
fn chosen_effect_never_repeats() {
    let mut last = None;
    for _ in 0..200 {
        let effect = choose_cell_effect(3, last);
        assert!(effect < 3);
        assert_ne!(Some(effect), last);
        last = Some(effect);
    }
    assert_eq!(choose_cell_effect(1, Some(0)), 0);
}

#[test]
fn frame_sound_budget() {
    let mut state = CellAudioState::default();
    let effects = play_cell_audio_events(10, 0, 4, &mut state);
    assert_eq!(effects.len(), MAX_CELL_SOUNDS_PER_FRAME);
    assert!(effects.windows(2).all(|w| w[0] != w[1]));
    assert_eq!(state.last_effect, effects.last().copied());

    assert_eq!(play_cell_audio_events(10, 6, 4, &mut state).len(), 2);
    assert_eq!(play_cell_audio_events(10, 8, 4, &mut state).len(), 0);
    assert_eq!(play_cell_audio_events(10, 12, 4, &mut state).len(), 0);
    assert_eq!(play_cell_audio_events(1, 0, 4, &mut state).len(), 1);
    let before = state.last_effect;
    assert!(play_cell_audio_events(0, 0, 4, &mut state).is_empty());
    assert_eq!(state.last_effect, before);
    start_running_audio(&mut state);
    assert_eq!(state.last_effect, None);
}

#[test]
fn wake_emitters_are_kept_per_cell_section() {
    let mut trails: CellWakeTrails<(i32, i32), u32> = CellWakeTrails::new();
    trails.begin_frame();
    assert_eq!(trails.emitter_slot(9, 0, (0, 0)), 0);
    assert_eq!(trails.emitter_slot(9, 1, (0, 20)), 1);
    assert_eq!(trails.emitter_slot(9, 0, (8, 0)), 0);
    assert_eq!(trails.emitter_slot(9, 1, (8, 20)), 1);
    assert_eq!(trails.emitters.len(), 2);
    // an existing emitter keeps its anchor until the caller moves it
    assert_eq!(trails.emitters[0].anchor, (0, 0));
    assert_eq!(trails.emitters[1].section, 1);
    assert_eq!(trails.emitters[1].last_seen_frame, 1);
}

#[test]
fn idle_wake_emitters_are_forgotten() {
    let mut trails: CellWakeTrails<u8, u8> = CellWakeTrails::new();
    trails.begin_frame();
    trails.emitter_slot(1, 0, 0);
    trails.emitter_slot(2, 0, 0);
    for _ in 0..WAKE_EMITTER_IDLE_FRAMES {
        trails.begin_frame();
        trails.emitter_slot(2, 0, 0);
    }
    assert_eq!(trails.emitters.len(), 2);
    trails.begin_frame();
    assert_eq!(trails.emitters.len(), 1);
    assert_eq!(trails.emitters[0].cell_id, 2);
    assert_eq!(trails.frame, WAKE_EMITTER_IDLE_FRAMES + 2);
}

#[test]
fn wake_patches_keep_the_newest() {
    let mut trails: CellWakeTrails<u8, usize> = CellWakeTrails::new();
    for n in 0..MAX_VISIBLE_WAKE_PATCHES + 3 {
        trails.push_patch(n);
    }
    assert_eq!(trails.patches.len(), MAX_VISIBLE_WAKE_PATCHES);
    assert_eq!(trails.patches[0], 3);
    assert_eq!(*trails.patches.last().unwrap(), MAX_VISIBLE_WAKE_PATCHES + 2);
    trails.emitter_slot(4, 2, 1);
    clear_cell_wake_trails(&mut trails);
    assert!(trails.patches.is_empty());
    assert!(trails.emitters.is_empty());
    assert_eq!(trails.frame, 0);
}

#[test]
fn gene_panel_rows_and_tooltips() {
    let rows = gene_stat_descriptors();
    assert_eq!(rows.len(), 10);
    assert_eq!(rows[0].id, GeneStatId::Viability);
    assert_eq!(rows[0].category, GeneCategory::State);
    assert_eq!(rows[9].id, GeneStatId::Size);
    assert_eq!(rows[9].icon, "sprites/gene-size.png");
    assert!(rows.iter().all(|r| r.compact));
    for row in &rows {
        let (heading, body) = gene_tooltip_copy(row.id);
        assert_eq!(heading, row.label.to_uppercase());
        assert!(!body.is_empty());
    }
    assert_eq!(gene_tooltip_copy(GeneStatId::Turn).0, "ПОВОРОТЛИВОСТЬ");
    assert_eq!(species_journal_metric_label(SpeciesJournalMetric::Population), "Численность");
    assert_eq!(species_journal_metric_label(SpeciesJournalMetric::Aggressiveness), "Агрессия");
}

#[test]
fn every_effect_gets_drawn() {
    let mut seen = [false; 5];
    for _ in 0..500 {
        seen[choose_cell_effect(5, None)] = true;
    }
    assert!(seen.iter().all(|&s| s), "{seen:?}");
}
