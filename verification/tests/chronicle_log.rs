use organoids::chronicle::{chronicle_graph_needs_redraw, mark_chronicle_graph_drawn, ChronicleGraphCache};
use organoids::event_list::sample_chronicle;
use organoids::census::{
    census_sample, species_counts, chronicle_note_kind, update_chronicle_census, CensusSample, ChronicleCensus, ChronicleEnergyState, ChronicleNote,
    ChronicleSpeciesRecord, SpeciesCount,
};
use organoids::event_list::{chronicle_event_list_text, chronicle_note_event, record_census_notes, ChronicleEvent};
use organoids::tooltips::{chronicle_tooltip_copy, ChronicleLegendLine, ChronicleTooltipKind};
use organoids::taxonomy::{make_species_name_book, species_name_for};
use organoids::chronicle::{
    chronicle_count_events, chronicle_event_marker, chronicle_filter_bit, chronicle_filter_label,
    chronicle_graph_mode_label, chronicle_listed_events, chronicle_push_event, chronicle_push_snapshot,
    chronicle_summary_label, chronicle_time_label, ChronicleEventKind, ChronicleGraphMode, ChronicleSummaryMetric,
    ChronicleUiState, SimulationChronicle, CHRONICLE_ALL_EVENT_FILTERS, CHRONICLE_MAX_EVENTS, CHRONICLE_MAX_SNAPSHOTS,
};

const KINDS: [ChronicleEventKind; 6] = [
    ChronicleEventKind::World,
    ChronicleEventKind::Species,
    ChronicleEventKind::Extinction,
    ChronicleEventKind::Population,
    ChronicleEventKind::Energy,
    ChronicleEventKind::Trait,
];

fn assert_no_mojibake(text: &str) {
    for chars in [
        ['\u{0412}', '\u{00b7}'],
        ['\u{0420}', '\u{0454}'],
        ['\u{0420}', '\u{00bb}'],
        ['\u{0420}', '\u{00b5}'],
        ['\u{0420}', '\u{00b0}'],
        ['\u{0420}', '\u{0451}'],
        ['\u{0420}', '\u{0455}'],
        ['\u{0420}', '\u{0491}'],
        ['\u{0421}', '\u{0403}'],
        ['\u{0421}', '\u{040a}'],
        ['\u{0421}', '\u{040f}'],
        ['\u{0421}', '\u{040c}'],
        ['\u{0421}', '\u{2026}'],
    ] {
        let bad = chars.iter().collect::<String>();
        assert!(!text.contains(&bad), "text contains mojibake {bad:?}: {text}");
    }
}

#[test]
fn chronicle_labels_and_values_are_readable_utf8() {
    for kind in KINDS {
        assert_no_mojibake(chronicle_filter_label(kind));
        assert_no_mojibake(chronicle_event_marker(kind));
    }
    for metric in [
        ChronicleSummaryMetric::Time,
        ChronicleSummaryMetric::Cells,
        ChronicleSummaryMetric::Species,
        ChronicleSummaryMetric::Food,
        ChronicleSummaryMetric::Viability,
        ChronicleSummaryMetric::Energy,
        ChronicleSummaryMetric::Costs,
        ChronicleSummaryMetric::Traits,
        ChronicleSummaryMetric::Performance,
    ] {
        assert_no_mojibake(chronicle_summary_label(metric));
    }
    for mode in [
        ChronicleGraphMode::Overall,
        ChronicleGraphMode::Cells,
        ChronicleGraphMode::Food,
        ChronicleGraphMode::Viability,
        ChronicleGraphMode::Energy,
    ] {
        assert_no_mojibake(chronicle_graph_mode_label(mode));
    }
    let mut chronicle: SimulationChronicle<u32, (ChronicleEventKind, String, String)> = SimulationChronicle::new();
    chronicle_push_event(&mut chronicle, (ChronicleEventKind::World, "Запуск".to_string(), "Проверка".to_string()));
    assert_no_mojibake(&chronicle.events[0].1);
    assert_no_mojibake(&chronicle.events[0].2);

    let state = ChronicleUiState::default();
    let event_kinds = vec![ChronicleEventKind::World];
    for target in [
        ChronicleTooltipKind::Summary(ChronicleSummaryMetric::Energy),
        ChronicleTooltipKind::Filter(ChronicleEventKind::World),
        ChronicleTooltipKind::Graph,
        ChronicleTooltipKind::GraphMode(ChronicleGraphMode::Cells),
        ChronicleTooltipKind::Legend(ChronicleLegendLine::EnergyNegative),
    ] {
        let (heading, body) = chronicle_tooltip_copy(target, &event_kinds, 1, &state, Some("+260 ед/с"));
        assert_no_mojibake(&heading);
        assert_no_mojibake(&body);
    }

    let names = make_species_name_book("", "", "");
    for note in [
        ChronicleNote::Started { cells: 10_000, food: 3_000, species_total: 42 },
        ChronicleNote::SpeciesPeak { species: 7, from: 10, to: 30 },
        ChronicleNote::Extinction { species: 7 },
        ChronicleNote::EnergyShift { state: ChronicleEnergyState::Surplus },
        ChronicleNote::LysisAppeared { cells: 6 },
        ChronicleNote::SegmentationAppeared { cells: 18 },
    ] {
        let event = chronicle_note_event(&note, &names, 2, "Приток выше расходов: +260 ед/с.");
        assert_no_mojibake(&event.title);
        assert_no_mojibake(&event.body);
    }
}

#[test]
fn chronicle_label_values() {
    assert_eq!(chronicle_filter_label(ChronicleEventKind::World), "мир");
    assert_eq!(chronicle_filter_label(ChronicleEventKind::Trait), "гены");
    assert_eq!(chronicle_event_marker(ChronicleEventKind::Extinction), "×");
    assert_eq!(chronicle_graph_mode_label(ChronicleGraphMode::Viability), "жизнь");
    assert_eq!(chronicle_summary_label(ChronicleSummaryMetric::Performance), "кадр");
}

#[test]
fn filter_bits_are_distinct_and_cover_all() {
    let mut all = 0u8;
    for kind in KINDS {
        let bit = chronicle_filter_bit(kind);
        assert_eq!(bit.count_ones(), 1);
        assert_eq!(all & bit, 0);
        all |= bit;
    }
    assert_eq!(all, CHRONICLE_ALL_EVENT_FILTERS);
}

#[test]
fn toggling_a_filter_twice_restores_it() {
    for kind in KINDS {
        let mut state = ChronicleUiState::default();
        assert!(state.event_enabled(kind));
        state.toggle_event_filter(kind);
        assert!(!state.event_enabled(kind));
        for other in KINDS {
            if other != kind {
                assert!(state.event_enabled(other));
            }
        }
        state.toggle_event_filter(kind);
        assert_eq!(state.event_filters, CHRONICLE_ALL_EVENT_FILTERS);
    }
}

#[test]
fn event_log_keeps_the_newest_entries() {
    let mut chronicle: SimulationChronicle<u32, usize> = SimulationChronicle::new();
    for n in 0..CHRONICLE_MAX_EVENTS + 5 {
        chronicle_push_event(&mut chronicle, n);
    }
    assert_eq!(chronicle.events.len(), CHRONICLE_MAX_EVENTS);
    assert_eq!(chronicle.events[0], 5);
    assert_eq!(*chronicle.events.last().unwrap(), CHRONICLE_MAX_EVENTS + 4);
    assert_eq!(chronicle.revision, (CHRONICLE_MAX_EVENTS + 5) as u64);
    assert!(chronicle.snapshots.is_empty());
}

#[test]
fn snapshot_log_keeps_the_newest_entries() {
    let mut chronicle: SimulationChronicle<usize, u8> = SimulationChronicle::new();
    for n in 0..CHRONICLE_MAX_SNAPSHOTS + 1 {
        chronicle_push_snapshot(&mut chronicle, n);
    }
    assert_eq!(chronicle.snapshots.len(), CHRONICLE_MAX_SNAPSHOTS);
    assert_eq!(chronicle.snapshots[0], 1);
    assert_eq!(chronicle.snapshots[CHRONICLE_MAX_SNAPSHOTS - 1], CHRONICLE_MAX_SNAPSHOTS);
    assert!(chronicle.events.is_empty());
}

#[test]
fn revision_wraps_around() {
    let mut chronicle: SimulationChronicle<u8, u8> = SimulationChronicle::new();
    chronicle.revision = u64::MAX;
    chronicle_push_event(&mut chronicle, 1);
    assert_eq!(chronicle.revision, 0);
}

#[test]
fn listed_events_are_newest_first_and_filtered() {
    let kinds = vec![
        ChronicleEventKind::World,
        ChronicleEventKind::Species,
        ChronicleEventKind::Energy,
        ChronicleEventKind::Species,
        ChronicleEventKind::Population,
    ];
    let mut state = ChronicleUiState::default();
    assert_eq!(chronicle_listed_events(&kinds, &state), vec![4, 3, 2, 1, 0]);
    state.toggle_event_filter(ChronicleEventKind::Species);
    assert_eq!(chronicle_listed_events(&kinds, &state), vec![4, 2, 0]);
    assert_eq!(chronicle_listed_events(&Vec::new(), &state), Vec::<usize>::new());
    assert_eq!(chronicle_count_events(&kinds, ChronicleEventKind::Species), 2);
    assert_eq!(chronicle_count_events(&kinds, ChronicleEventKind::Trait), 0);
}

#[test]
fn time_labels_are_minutes_and_seconds() {
    assert_eq!(chronicle_time_label(0), "00:00");
    assert_eq!(chronicle_time_label(65), "01:05");
    assert_eq!(chronicle_time_label(600), "10:00");
    assert_eq!(chronicle_time_label(6001), "100:01");
}

fn count(species: u32, alive: usize) -> SpeciesCount {
    SpeciesCount { species, alive }
}

fn sample(counts: Vec<SpeciesCount>, total_cells: usize) -> CensusSample {
    CensusSample {
        counts,
        total_cells,
        food: 50,
        energy_state: ChronicleEnergyState::Balanced,
        population_check_due: false,
        lysis_capable: 0,
        segmented: 0,
    }
}

#[test]
fn first_sample_notes_the_start() {
    let mut census = ChronicleCensus::new();
    let notes = update_chronicle_census(&mut census, &sample(vec![count(1, 10), count(2, 4)], 14), true);
    assert_eq!(notes, vec![ChronicleNote::Started { cells: 14, food: 50, species_total: 2 }]);
    assert_eq!(chronicle_note_kind(&notes[0]), ChronicleEventKind::World);
    assert_eq!(
        census.species_records,
        vec![
            ChronicleSpeciesRecord { species: 1, alive: 10, peak_alive: 10 },
            ChronicleSpeciesRecord { species: 2, alive: 4, peak_alive: 4 },
        ]
    );
    assert_eq!(census.last_population_check_cells, 14);
}

#[test]
fn census_notes_new_species_peaks_and_extinctions() {
    let mut census = ChronicleCensus::new();
    update_chronicle_census(&mut census, &sample(vec![count(1, 10), count(2, 4)], 14), true);

    // species 1 grows from 10 to 20 (at least 10 more and 1.6 times), 2 dies out, 3 is new
    let notes = update_chronicle_census(&mut census, &sample(vec![count(1, 20), count(3, 2)], 22), false);
    assert_eq!(
        notes,
        vec![
            ChronicleNote::SpeciesPeak { species: 1, from: 10, to: 20 },
            ChronicleNote::NewSpecies { species: 3, alive: 2 },
            ChronicleNote::Extinction { species: 2 },
            ChronicleNote::NewDominant { species: 1, alive: 20, total_cells: 22 },
        ]
    );
    assert_eq!(
        census.species_records,
        vec![
            ChronicleSpeciesRecord { species: 1, alive: 20, peak_alive: 20 },
            ChronicleSpeciesRecord { species: 2, alive: 0, peak_alive: 4 },
            ChronicleSpeciesRecord { species: 3, alive: 2, peak_alive: 2 },
        ]
    );
    assert_eq!(census.dominant_species, Some(1));

    // nothing new: no notes, and the extinct species is not reported again
    let notes = update_chronicle_census(&mut census, &sample(vec![count(1, 21), count(3, 2)], 23), false);
    assert!(notes.is_empty());
}

#[test]
fn peak_needs_ten_more_cells_and_sixty_percent() {
    let mut census = ChronicleCensus::new();
    update_chronicle_census(&mut census, &sample(vec![count(1, 20)], 20), true);
    // 31 is 11 more than 20 but less than 1.6 times it
    let notes = update_chronicle_census(&mut census, &sample(vec![count(1, 31)], 31), false);
    assert!(!notes.iter().any(|n| matches!(n, ChronicleNote::SpeciesPeak { .. })));
    // the peak rose to 31, and 49 is still short of 1.6 times it; 79 is well past 1.6 times 49
    let notes = update_chronicle_census(&mut census, &sample(vec![count(1, 49)], 49), false);
    assert!(!notes.iter().any(|n| matches!(n, ChronicleNote::SpeciesPeak { .. })));
    let notes = update_chronicle_census(&mut census, &sample(vec![count(1, 79)], 79), false);
    assert!(notes.contains(&ChronicleNote::SpeciesPeak { species: 1, from: 49, to: 79 }));
}

#[test]
fn small_species_never_peak() {
    let mut census = ChronicleCensus::new();
    update_chronicle_census(&mut census, &sample(vec![count(4, 7)], 7), true);
    let notes = update_chronicle_census(&mut census, &sample(vec![count(4, 100)], 100), false);
    assert!(!notes.iter().any(|n| matches!(n, ChronicleNote::SpeciesPeak { .. })));
}

#[test]
fn dominant_needs_twelve_percent() {
    let mut census = ChronicleCensus::new();
    update_chronicle_census(&mut census, &sample(vec![count(1, 11), count(2, 5)], 100), true);
    let notes = update_chronicle_census(&mut census, &sample(vec![count(1, 11), count(2, 5)], 100), false);
    assert!(notes.is_empty());
    assert_eq!(census.dominant_species, None);
    let notes = update_chronicle_census(&mut census, &sample(vec![count(1, 12), count(2, 5)], 100), false);
    assert_eq!(notes, vec![ChronicleNote::NewDominant { species: 1, alive: 12, total_cells: 100 }]);
    // the same dominant is not announced twice
    let notes = update_chronicle_census(&mut census, &sample(vec![count(1, 13), count(2, 5)], 100), false);
    assert!(notes.is_empty());
}

#[test]
fn census_trends_energy_population_and_traits() {
    let mut census = ChronicleCensus::new();
    update_chronicle_census(&mut census, &sample(vec![count(1, 100)], 100), true);

    let mut s = sample(vec![count(1, 118)], 118);
    s.energy_state = ChronicleEnergyState::Surplus;
    s.population_check_due = true;
    s.lysis_capable = 3;
    s.segmented = 2;
    let notes = update_chronicle_census(&mut census, &s, false);
    assert_eq!(
        notes,
        vec![
            ChronicleNote::NewDominant { species: 1, alive: 118, total_cells: 118 },
            ChronicleNote::EnergyShift { state: ChronicleEnergyState::Surplus },
            ChronicleNote::PopulationSurge { previous: 100, current: 118 },
            ChronicleNote::LysisAppeared { cells: 3 },
            ChronicleNote::SegmentationAppeared { cells: 2 },
        ]
    );
    assert_eq!(census.last_population_check_cells, 118);
    assert_eq!(census.energy_state, ChronicleEnergyState::Surplus);

    // same state again: the traits are reported once, the crash at 82% is noted
    let mut s = sample(vec![count(1, 96)], 96);
    s.energy_state = ChronicleEnergyState::Surplus;
    s.population_check_due = true;
    s.lysis_capable = 5;
    s.segmented = 5;
    let notes = update_chronicle_census(&mut census, &s, false);
    assert_eq!(notes, vec![ChronicleNote::PopulationCrash { previous: 118, current: 96 }]);

    // a check that is not due leaves the reference count alone
    let mut s = sample(vec![count(1, 10)], 10);
    s.energy_state = ChronicleEnergyState::Surplus;
    let notes = update_chronicle_census(&mut census, &s, false);
    assert!(notes.is_empty());
    assert_eq!(census.last_population_check_cells, 96);
}

fn event(time_seconds: u32, kind: ChronicleEventKind, title: &str, body: &str, species: Option<u32>) -> ChronicleEvent {
    ChronicleEvent { time_seconds, kind, title: title.to_string(), body: body.to_string(), species }
}

#[test]
fn event_list_shows_newest_first_with_blank_lines() {
    let events = vec![
        event(0, ChronicleEventKind::World, "Запуск экосистемы", "14 клеток, 50 еды, 2 стартовых видов.", None),
        event(65, ChronicleEventKind::Species, "Новый вид", "Vitaum primus: 2 живых.", Some(30_002)),
        event(130, ChronicleEventKind::Energy, "Энергия стабилизировалась", "Баланс около нуля: +3 ед/с.", None),
    ];
    let mut state = ChronicleUiState::default();
    assert_eq!(
        chronicle_event_list_text(&events, &state),
        "= 02:10 · Энергия стабилизировалась\nБаланс около нуля: +3 ед/с.\n\n\
         + 01:05 · Новый вид · вид #30002\nVitaum primus: 2 живых.\n\n\
         • 00:00 · Запуск экосистемы\n14 клеток, 50 еды, 2 стартовых видов.\n"
    );
    state.toggle_event_filter(ChronicleEventKind::World);
    state.toggle_event_filter(ChronicleEventKind::Energy);
    assert_eq!(
        chronicle_event_list_text(&events, &state),
        "+ 01:05 · Новый вид · вид #30002\nVitaum primus: 2 живых.\n"
    );
    state.toggle_event_filter(ChronicleEventKind::Species);
    assert_eq!(chronicle_event_list_text(&events, &state), "нет событий с включенными фильтрами");
    assert_eq!(
        chronicle_event_list_text(&Vec::new(), &state),
        "события появятся после первых изменений экосистемы"
    );
}

#[test]
fn species_are_counted_from_the_cells() {
    let cells = vec![5, 2, 5, 9, 2, 5];
    assert_eq!(species_counts(&cells), vec![count(5, 3), count(2, 2), count(9, 1)]);
    assert!(species_counts(&Vec::new()).is_empty());
    let sample = census_sample(
        &cells,
        &vec![1, 2, 1, 3, 1, 1],
        &vec![false, true, true, false, false, false],
        40,
        ChronicleEnergyState::Deficit,
        true,
    );
    assert_eq!(sample.counts, vec![count(5, 3), count(2, 2), count(9, 1)]);
    assert_eq!(sample.total_cells, 6);
    assert_eq!(sample.segmented, 2);
    assert_eq!(sample.lysis_capable, 2);
    assert_eq!(sample.food, 40);
    assert_eq!(sample.energy_state, ChronicleEnergyState::Deficit);
    assert!(sample.population_check_due);
}

#[test]
fn census_notes_become_chronicle_entries() {
    let names = make_species_name_book("", "", "");
    let event = chronicle_note_event(&ChronicleNote::Started { cells: 14, food: 50, species_total: 2 }, &names, 0, "");
    assert_eq!(event.kind, ChronicleEventKind::World);
    assert_eq!(event.title, "Запуск экосистемы");
    assert_eq!(event.body, "14 клеток, 50 еды, 2 стартовых видов.");
    assert_eq!(event.species, None);

    let peak = chronicle_note_event(&ChronicleNote::SpeciesPeak { species: 10_002, from: 10, to: 20 }, &names, 65, "ignored");
    assert_eq!(peak.kind, ChronicleEventKind::Population);
    assert_eq!(peak.title, "Пик вида");
    assert_eq!(peak.body, format!("{} вырос с 10 до 20 живых.", species_name_for(&names, 10_002)));
    assert_eq!(peak.species, Some(10_002));
    assert_eq!(peak.time_seconds, 65);

    let gone = chronicle_note_event(&ChronicleNote::Extinction { species: 3 }, &names, 1, "");
    assert_eq!(gone.title, "Вид вымер");
    assert_eq!(gone.body, "Vitaum flexus: последний живой представитель исчез.");

    let lysis = chronicle_note_event(&ChronicleNote::LysisAppeared { cells: 6 }, &names, 1, "");
    assert_eq!((lysis.title.as_str(), lysis.body.as_str()), ("Появился лизис", "6 клеток способны к ближней атаке."));
    let seg = chronicle_note_event(&ChronicleNote::SegmentationAppeared { cells: 18 }, &names, 1, "");
    assert_eq!(
        (seg.title.as_str(), seg.body.as_str(), seg.kind),
        ("Появилась многосегментность", "18 клеток имеют несколько секций тела.", ChronicleEventKind::Trait)
    );

    let deficit = chronicle_note_event(&ChronicleNote::EnergyShift { state: ChronicleEnergyState::Deficit }, &names, 1, "Отток сильнее притока: -300 ед/с.");
    assert_eq!(deficit.title, "Энергетический дефицит");
    assert_eq!(deficit.body, "Отток сильнее притока: -300 ед/с.");
    let dominant = chronicle_note_event(&ChronicleNote::NewDominant { species: 4, alive: 20, total_cells: 22 }, &names, 1, "x: 91% популяции мира.");
    assert_eq!((dominant.title.as_str(), dominant.species), ("Новый доминант", Some(4)));
    let surge = chronicle_note_event(&ChronicleNote::PopulationSurge { previous: 100, current: 118 }, &names, 1, "b");
    assert_eq!((surge.title.as_str(), surge.body.as_str()), ("Всплеск популяции", "b"));
    let crash = chronicle_note_event(&ChronicleNote::PopulationCrash { previous: 100, current: 80 }, &names, 1, "c");
    assert_eq!(crash.title, "Обвал популяции");
    let new = chronicle_note_event(&ChronicleNote::NewSpecies { species: 8, alive: 2 }, &names, 1, "d");
    assert_eq!((new.title.as_str(), new.body.as_str(), new.species), ("Новый вид", "d", Some(8)));
}

#[test]
fn recorded_notes_are_pushed_in_order() {
    let names = make_species_name_book("", "", "");
    let mut chronicle: SimulationChronicle<u32, ChronicleEvent> = SimulationChronicle::new();
    chronicle_push_snapshot(&mut chronicle, 1);
    let notes = vec![
        ChronicleNote::Extinction { species: 3 },
        ChronicleNote::EnergyShift { state: ChronicleEnergyState::Balanced },
    ];
    record_census_notes(&mut chronicle, &notes, &names, 30, &vec![String::new(), "Баланс около нуля: +0 ед/с.".to_string()]);
    assert_eq!(chronicle.revision, 3);
    assert_eq!(chronicle.snapshots, vec![1]);
    assert_eq!(chronicle.events.len(), 2);
    assert_eq!(chronicle.events[0].title, "Вид вымер");
    assert_eq!(chronicle.events[1].title, "Энергия стабилизировалась");
    assert_eq!(chronicle.events[1].body, "Баланс около нуля: +0 ед/с.");
    assert!(chronicle.events.iter().all(|e| e.time_seconds == 30));
}

#[test]
fn graph_is_redrawn_on_new_revision_or_mode() {
    let mut cache = ChronicleGraphCache::default();
    assert!(!chronicle_graph_needs_redraw(&cache, 0, ChronicleGraphMode::Overall));
    assert!(chronicle_graph_needs_redraw(&cache, 1, ChronicleGraphMode::Overall));
    assert!(chronicle_graph_needs_redraw(&cache, 0, ChronicleGraphMode::Food));
    mark_chronicle_graph_drawn(&mut cache, 5, ChronicleGraphMode::Food);
    assert!(!chronicle_graph_needs_redraw(&cache, 5, ChronicleGraphMode::Food));
    assert!(chronicle_graph_needs_redraw(&cache, 5, ChronicleGraphMode::Cells));
}

#[test]
fn first_sample_is_detected_from_the_snapshots() {
    let mut chronicle: SimulationChronicle<u32, ChronicleEvent> = SimulationChronicle::new();
    let mut census = ChronicleCensus::new();
    let (first, notes) = sample_chronicle(&mut chronicle, &mut census, 7, &sample(vec![count(1, 10), count(2, 4)], 14));
    assert!(first);
    assert_eq!(notes, vec![ChronicleNote::Started { cells: 14, food: 50, species_total: 2 }]);
    assert_eq!(chronicle.snapshots, vec![7]);
    assert_eq!(chronicle.revision, 1);
    let (first, notes) = sample_chronicle(&mut chronicle, &mut census, 8, &sample(vec![count(1, 10)], 10));
    assert!(!first);
    assert_eq!(notes, vec![ChronicleNote::Extinction { species: 2 }, ChronicleNote::NewDominant { species: 1, alive: 10, total_cells: 10 }]);
    assert_eq!(chronicle.snapshots, vec![7, 8]);
    assert!(chronicle.events.is_empty());
}
