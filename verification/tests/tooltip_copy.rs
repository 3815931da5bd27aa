use organoids::chronicle::{
    chronicle_filter_label, chronicle_graph_mode_label, chronicle_summary_label, ChronicleEventKind, ChronicleGraphMode,
    ChronicleSummaryMetric, ChronicleUiState,
};
use organoids::genes::{GeneStatId, SpeciesJournalMetric};
use organoids::text::window_title_text;
use organoids::tooltips::{
    choose_tooltip_subject, chronicle_legend_line_copy, chronicle_tooltip_copy, ChronicleLegendLine, ChronicleTooltipKind,
    SpeciesJournalTooltipKind, TooltipSubject,
};

#[test]
fn window_title_shows_launch_counts() {
    assert_eq!(window_title_text(8000, 2400), "Organoids - 8000 клеток / 2400 еды");
    assert_eq!(window_title_text(0, 1), "Organoids - 0 клеток / 1 еды");
    assert_eq!(
        window_title_text(usize::MAX, 10),
        format!("Organoids - {} клеток / 10 еды", usize::MAX)
    );
}

#[test]
fn filter_tooltip_counts_events_and_shows_state() {
    let kinds = vec![ChronicleEventKind::World, ChronicleEventKind::Species, ChronicleEventKind::Species];
    let mut state = ChronicleUiState::default();
    let (heading, body) = chronicle_tooltip_copy(ChronicleTooltipKind::Filter(ChronicleEventKind::Species), &kinds, 3, &state, None);
    assert_eq!(heading, "ФИЛЬТР: ВИДЫ");
    assert_eq!(
        body,
        "Появление новых видов, когда форма и ключевые гены уже не укладываются в старый вид.\nСейчас фильтр включён; событий этого типа в памяти: 2."
    );
    state.toggle_event_filter(ChronicleEventKind::Trait);
    let (_, body) = chronicle_tooltip_copy(ChronicleTooltipKind::Filter(ChronicleEventKind::Trait), &kinds, 3, &state, None);
    assert!(body.ends_with("\nСейчас фильтр выключен; событий этого типа в памяти: 0."));
}

#[test]
fn headings_are_the_labels_in_capitals() {
    let state = ChronicleUiState::default();
    let none = Vec::new();
    for kind in [
        ChronicleEventKind::World,
        ChronicleEventKind::Species,
        ChronicleEventKind::Extinction,
        ChronicleEventKind::Population,
        ChronicleEventKind::Energy,
        ChronicleEventKind::Trait,
    ] {
        let (heading, _) = chronicle_tooltip_copy(ChronicleTooltipKind::Filter(kind), &none, 0, &state, None);
        assert_eq!(heading, format!("ФИЛЬТР: {}", chronicle_filter_label(kind).to_uppercase()));
    }
    for metric in [
        ChronicleSummaryMetric::Time,
        ChronicleSummaryMetric::Cells,
        ChronicleSummaryMetric::Species,
        ChronicleSummaryMetric::Food,
        ChronicleSummaryMetric::Viability,
        ChronicleSummaryMetric::Energy,
        ChronicleSummaryMetric::Costs,
        ChronicleSummaryMetric::Traits,
        ChronicleSummaryMetric::Performance,
    ] {
        let (heading, _) = chronicle_tooltip_copy(ChronicleTooltipKind::Summary(metric), &none, 0, &state, None);
        assert_eq!(heading, chronicle_summary_label(metric).to_uppercase());
    }
    for mode in [
        ChronicleGraphMode::Overall,
        ChronicleGraphMode::Cells,
        ChronicleGraphMode::Food,
        ChronicleGraphMode::Viability,
        ChronicleGraphMode::Energy,
    ] {
        let (heading, _) = chronicle_tooltip_copy(ChronicleTooltipKind::GraphMode(mode), &none, 0, &state, None);
        assert_eq!(heading, format!("ГРАФИК: {}", chronicle_graph_mode_label(mode).to_uppercase()));
    }
}

#[test]
fn summary_tooltip_appends_the_current_value() {
    let state = ChronicleUiState::default();
    let none = Vec::new();
    let (heading, body) =
        chronicle_tooltip_copy(ChronicleTooltipKind::Summary(ChronicleSummaryMetric::Time), &none, 1, &state, Some("01:05"));
    assert_eq!(heading, "ВРЕМЯ");
    assert_eq!(body, "Время симуляции с момента запуска текущей экосистемы.\nТекущее значение: 01:05.");
    let (_, body) = chronicle_tooltip_copy(ChronicleTooltipKind::Summary(ChronicleSummaryMetric::Time), &none, 0, &state, None);
    assert_eq!(body, "Время симуляции с момента запуска текущей экосистемы.");
}

#[test]
fn graph_and_legend_tooltips() {
    let state = ChronicleUiState::default();
    let none = Vec::new();
    let (heading, body) = chronicle_tooltip_copy(ChronicleTooltipKind::Graph, &none, 900, &state, None);
    assert_eq!(heading, "ГРАФИК СРЕЗОВ");
    assert!(body.starts_with("График показывает последние 900 срезов мира. Линии нормализованы"));
    let (heading, body) =
        chronicle_tooltip_copy(ChronicleTooltipKind::Legend(ChronicleLegendLine::EnergyNegative), &none, 0, &state, None);
    assert_eq!(heading, "БАЛАНС ЭНЕРГИИ: МИНУС");
    assert_eq!((heading.as_str(), body.as_str()), chronicle_legend_line_copy(ChronicleLegendLine::EnergyNegative));
    assert_eq!(chronicle_legend_line_copy(ChronicleLegendLine::Cells).0, "КЛЕТКИ");
}

#[test]
fn tooltip_subject_priority() {
    let gene = Some(GeneStatId::Speed);
    let journal = Some(SpeciesJournalTooltipKind::Metric(SpeciesJournalMetric::Size));
    let chronicle = Some(ChronicleTooltipKind::Graph);
    assert_eq!(choose_tooltip_subject(true, gene, journal, chronicle, true, true, true), None);
    assert_eq!(
        choose_tooltip_subject(false, gene, journal, chronicle, true, true, true),
        Some(TooltipSubject::Gene(GeneStatId::Speed))
    );
    // a hovered gene without a selected cell hides the tooltip
    assert_eq!(choose_tooltip_subject(false, gene, journal, chronicle, false, true, true), None);
    assert_eq!(
        choose_tooltip_subject(false, None, journal, chronicle, false, true, true),
        Some(TooltipSubject::Journal(SpeciesJournalTooltipKind::Metric(SpeciesJournalMetric::Size)))
    );
    assert_eq!(choose_tooltip_subject(false, None, journal, chronicle, false, false, true), None);
    assert_eq!(
        choose_tooltip_subject(false, None, None, chronicle, false, false, true),
        Some(TooltipSubject::Chronicle(ChronicleTooltipKind::Graph))
    );
    assert_eq!(choose_tooltip_subject(false, None, None, chronicle, false, false, false), None);
    assert_eq!(choose_tooltip_subject(false, None, None, None, true, true, true), None);
}
