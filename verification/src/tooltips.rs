use vstd::prelude::*;
use crate::chronicle::{
    chronicle_count_events, count_kind, filter_enabled, ChronicleEventKind, ChronicleGraphMode, ChronicleSummaryMetric,
    ChronicleUiState,
};
use crate::genes::{GeneStatId, SpeciesJournalMetric};
use crate::text::{append_decimal, decimal_text};

verus! {

/// A line of the chronicle graph legend.
#[derive(Clone, Copy, PartialEq, Eq, Structural, Debug)]
pub enum ChronicleLegendLine {
    Cells,
    Food,
    Viability,
    EnergyPositive,
    EnergyNegative,
}

/// The element of the chronicle panel a tooltip explains.
#[derive(Clone, Copy, PartialEq, Eq, Structural, Debug)]
pub enum ChronicleTooltipKind {
    Summary(ChronicleSummaryMetric),
    Filter(ChronicleEventKind),
    Graph,
    GraphMode(ChronicleGraphMode),
    Legend(ChronicleLegendLine),
}

/// The element of the species journal a tooltip explains.
#[derive(Clone, Copy, PartialEq, Eq, Structural, Debug)]
pub enum SpeciesJournalTooltipKind {
    Portrait,
    Diet,
    Metric(SpeciesJournalMetric),
}

/// What the shared tooltip explains.
#[derive(Clone, Copy, PartialEq, Eq, Structural, Debug)]
pub enum TooltipSubject {
    Gene(GeneStatId),
    Journal(SpeciesJournalTooltipKind),
    Chronicle(ChronicleTooltipKind),
}

/// The subject of the shared tooltip. A hovered division marker has a
/// tooltip of its own and silences this one; otherwise a hovered gene row
/// comes first, then a journal element, then a chronicle element. A gene
/// needs a selected cell, a journal element a journal open on a species,
/// and a chronicle element an open chronicle; an element whose condition
/// fails leaves the tooltip hidden rather than falling through.
pub open spec fn tooltip_subject(
    marker_hovered: bool,
    gene_hovered: Option<GeneStatId>,
    journal_hovered: Option<SpeciesJournalTooltipKind>,
    chronicle_hovered: Option<ChronicleTooltipKind>,
    has_selected_cell: bool,
    journal_shows_species: bool,
    chronicle_open: bool,
) -> Option<TooltipSubject> {
    if marker_hovered {
        None
    } else if gene_hovered.is_some() {
        if has_selected_cell { Some(TooltipSubject::Gene(gene_hovered.unwrap())) } else { None }
    } else if journal_hovered.is_some() {
        if journal_shows_species { Some(TooltipSubject::Journal(journal_hovered.unwrap())) } else { None }
    } else if chronicle_hovered.is_some() && chronicle_open {
        Some(TooltipSubject::Chronicle(chronicle_hovered.unwrap()))
    } else {
        None
    }
}

/// Picks what the shared tooltip shows this frame; `None` hides it.
pub fn choose_tooltip_subject(
    marker_hovered: bool,
    gene_hovered: Option<GeneStatId>,
    journal_hovered: Option<SpeciesJournalTooltipKind>,
    chronicle_hovered: Option<ChronicleTooltipKind>,
    has_selected_cell: bool,
    journal_shows_species: bool,
    chronicle_open: bool,
) -> (subject: Option<TooltipSubject>)
    ensures
        subject == tooltip_subject(
            marker_hovered,
            gene_hovered,
            journal_hovered,
            chronicle_hovered,
            has_selected_cell,
            journal_shows_species,
            chronicle_open,
        ),
{
    if marker_hovered {
        return None;
    }
    match gene_hovered {
        Some(gene) => {
            return if has_selected_cell { Some(TooltipSubject::Gene(gene)) } else { None };
        },
        None => {},
    }
    match journal_hovered {
        Some(element) => {
            return if journal_shows_species { Some(TooltipSubject::Journal(element)) } else { None };
        },
        None => {},
    }
    match chronicle_hovered {
        Some(element) => if chronicle_open { Some(TooltipSubject::Chronicle(element)) } else { None },
        None => None,
    }
}

/// Heading of a summary tooltip: the label of the figure in capitals.
pub open spec fn summary_heading(v: ChronicleSummaryMetric) -> &'static str {
    match v {
        ChronicleSummaryMetric::Time => "ВРЕМЯ",
        ChronicleSummaryMetric::Cells => "КЛЕТКИ",
        ChronicleSummaryMetric::Species => "ВИДЫ",
        ChronicleSummaryMetric::Food => "ЕДА",
        ChronicleSummaryMetric::Viability => "ЖИЗНЬ",
        ChronicleSummaryMetric::Energy => "ЭНЕРГИЯ",
        ChronicleSummaryMetric::Costs => "РАСХОДЫ",
        ChronicleSummaryMetric::Traits => "ПРИЗНАКИ",
        ChronicleSummaryMetric::Performance => "КАДР",
    }
}

/// What a summary figure measures.
pub open spec fn summary_description(v: ChronicleSummaryMetric) -> &'static str {
    match v {
        ChronicleSummaryMetric::Time => "Время симуляции с момента запуска текущей экосистемы.",
        ChronicleSummaryMetric::Cells => "Количество живых клеток прямо сейчас. Рост и падение популяции попадают в события хроники.",
        ChronicleSummaryMetric::Species => "Количество живых видов, распознанных по форме, сегментам, трофике и ключевым генам.",
        ChronicleSummaryMetric::Food => "Общий запас еды и расклад внутри него: дикая трава, еда кормушек и мясо.",
        ChronicleSummaryMetric::Viability => "Средняя жизнеспособность всех клеток: энергия и здоровье в одной шкале.",
        ChronicleSummaryMetric::Energy => "Внешний баланс энергии: приток минус расход. Плюс означает избыток, минус означает истощение экосистемы.",
        ChronicleSummaryMetric::Costs => "Крупные статьи расхода: метаболизм, деление и потери от лизиса.",
        ChronicleSummaryMetric::Traits => "Быстрый срез важных признаков: сколько клеток многосегментные и сколько способны к лизису.",
        ChronicleSummaryMetric::Performance => "Производительность последнего среза: FPS, время симуляции и время выгрузки рендера.",
    }
}

/// Label of an event category in capitals, for its filter tooltip.
pub open spec fn filter_heading(v: ChronicleEventKind) -> &'static str {
    match v {
        ChronicleEventKind::World => "МИР",
        ChronicleEventKind::Species => "ВИДЫ",
        ChronicleEventKind::Extinction => "СМЕРТЬ",
        ChronicleEventKind::Population => "ПОП.",
        ChronicleEventKind::Energy => "ЭНЕРГ.",
        ChronicleEventKind::Trait => "ГЕНЫ",
    }
}

/// Which events a category holds.
pub open spec fn filter_description(v: ChronicleEventKind) -> &'static str {
    match v {
        ChronicleEventKind::World => "События общего состояния мира: запуск экосистемы и глобальные изменения.",
        ChronicleEventKind::Species => "Появление новых видов, когда форма и ключевые гены уже не укладываются в старый вид.",
        ChronicleEventKind::Extinction => "Вымирания видов. Их можно выключить фильтром, не удаляя из истории.",
        ChronicleEventKind::Population => "Доминанты, всплески и обвалы численности популяции.",
        ChronicleEventKind::Energy => "Переходы энергетики между профицитом, дефицитом и балансом.",
        ChronicleEventKind::Trait => "Появление заметных признаков вроде лизиса или многосегментности.",
    }
}

/// Label of a graph mode in capitals.
pub open spec fn graph_mode_heading(v: ChronicleGraphMode) -> &'static str {
    match v {
        ChronicleGraphMode::Overall => "ОБЩИЙ",
        ChronicleGraphMode::Cells => "КЛЕТКИ",
        ChronicleGraphMode::Food => "ЕДА",
        ChronicleGraphMode::Viability => "ЖИЗНЬ",
        ChronicleGraphMode::Energy => "ЭНЕРГИЯ",
    }
}

/// What a graph mode draws.
pub open spec fn graph_mode_description(v: ChronicleGraphMode) -> &'static str {
    match v {
        ChronicleGraphMode::Overall => "Общий режим рисует все основные линии вместе: клетки, еду, среднюю жизнеспособность и энергетический баланс.",
        ChronicleGraphMode::Cells => "Отдельный график численности клеток. Удобен, когда общий график слишком шумный.",
        ChronicleGraphMode::Food => "Отдельный график общего количества еды: трава, кормушки и мясо суммарно.",
        ChronicleGraphMode::Viability => "Отдельный график средней жизнеспособности популяции.",
        ChronicleGraphMode::Energy => "Отдельный график внешнего баланса энергии. Нулевая линия показывает границу между плюсом и минусом.",
    }
}

/// Heading of a legend line tooltip.
pub open spec fn legend_heading(v: ChronicleLegendLine) -> &'static str {
    match v {
        ChronicleLegendLine::Cells => "КЛЕТКИ",
        ChronicleLegendLine::Food => "ЕДА",
        ChronicleLegendLine::Viability => "ЖИЗНЕСПОСОБНОСТЬ",
        ChronicleLegendLine::EnergyPositive => "БАЛАНС ЭНЕРГИИ: ПЛЮС",
        ChronicleLegendLine::EnergyNegative => "БАЛАНС ЭНЕРГИИ: МИНУС",
    }
}

/// What a legend line shows.
pub open spec fn legend_description(v: ChronicleLegendLine) -> &'static str {
    match v {
        ChronicleLegendLine::Cells => "Зелёная линия показывает численность живых клеток в последних срезах хроники.",
        ChronicleLegendLine::Food => "Жёлтая линия показывает общее количество активной еды: дикая трава, кормушки и мясо.",
        ChronicleLegendLine::Viability => "Белая линия показывает средний процент жизнеспособности популяции: общий запас энергии и здоровья.",
        ChronicleLegendLine::EnergyPositive => "Зелёный участок баланса означает, что внешний приток еды и энергии выше расходов экосистемы.",
        ChronicleLegendLine::EnergyNegative => "Красный участок баланса означает, что расходы экосистемы выше внешнего притока.",
    }
}

/// Heading of the tooltip of a summary figure.
fn chronicle_summary_heading(v: ChronicleSummaryMetric) -> (text: &'static str)
    ensures
        text == summary_heading(v),
{
    match v {
        ChronicleSummaryMetric::Time => "ВРЕМЯ",
        ChronicleSummaryMetric::Cells => "КЛЕТКИ",
        ChronicleSummaryMetric::Species => "ВИДЫ",
        ChronicleSummaryMetric::Food => "ЕДА",
        ChronicleSummaryMetric::Viability => "ЖИЗНЬ",
        ChronicleSummaryMetric::Energy => "ЭНЕРГИЯ",
        ChronicleSummaryMetric::Costs => "РАСХОДЫ",
        ChronicleSummaryMetric::Traits => "ПРИЗНАКИ",
        ChronicleSummaryMetric::Performance => "КАДР",
    }
}

/// Explanation of a summary figure.
fn chronicle_summary_description(v: ChronicleSummaryMetric) -> (text: &'static str)
    ensures
        text == summary_description(v),
{
    match v {
        ChronicleSummaryMetric::Time => "Время симуляции с момента запуска текущей экосистемы.",
        ChronicleSummaryMetric::Cells => "Количество живых клеток прямо сейчас. Рост и падение популяции попадают в события хроники.",
        ChronicleSummaryMetric::Species => "Количество живых видов, распознанных по форме, сегментам, трофике и ключевым генам.",
        ChronicleSummaryMetric::Food => "Общий запас еды и расклад внутри него: дикая трава, еда кормушек и мясо.",
        ChronicleSummaryMetric::Viability => "Средняя жизнеспособность всех клеток: энергия и здоровье в одной шкале.",
        ChronicleSummaryMetric::Energy => "Внешний баланс энергии: приток минус расход. Плюс означает избыток, минус означает истощение экосистемы.",
        ChronicleSummaryMetric::Costs => "Крупные статьи расхода: метаболизм, деление и потери от лизиса.",
        ChronicleSummaryMetric::Traits => "Быстрый срез важных признаков: сколько клеток многосегментные и сколько способны к лизису.",
        ChronicleSummaryMetric::Performance => "Производительность последнего среза: FPS, время симуляции и время выгрузки рендера.",
    }
}

/// Capitalised label of an event category.
fn chronicle_filter_heading(v: ChronicleEventKind) -> (text: &'static str)
    ensures
        text == filter_heading(v),
{
    match v {
        ChronicleEventKind::World => "МИР",
        ChronicleEventKind::Species => "ВИДЫ",
        ChronicleEventKind::Extinction => "СМЕРТЬ",
        ChronicleEventKind::Population => "ПОП.",
        ChronicleEventKind::Energy => "ЭНЕРГ.",
        ChronicleEventKind::Trait => "ГЕНЫ",
    }
}

/// Explanation of an event category.
fn chronicle_filter_description(v: ChronicleEventKind) -> (text: &'static str)
    ensures
        text == filter_description(v),
{
    match v {
        ChronicleEventKind::World => "События общего состояния мира: запуск экосистемы и глобальные изменения.",
        ChronicleEventKind::Species => "Появление новых видов, когда форма и ключевые гены уже не укладываются в старый вид.",
        ChronicleEventKind::Extinction => "Вымирания видов. Их можно выключить фильтром, не удаляя из истории.",
        ChronicleEventKind::Population => "Доминанты, всплески и обвалы численности популяции.",
        ChronicleEventKind::Energy => "Переходы энергетики между профицитом, дефицитом и балансом.",
        ChronicleEventKind::Trait => "Появление заметных признаков вроде лизиса или многосегментности.",
    }
}

/// Capitalised label of a graph mode.
fn chronicle_graph_mode_heading(v: ChronicleGraphMode) -> (text: &'static str)
    ensures
        text == graph_mode_heading(v),
{
    match v {
        ChronicleGraphMode::Overall => "ОБЩИЙ",
        ChronicleGraphMode::Cells => "КЛЕТКИ",
        ChronicleGraphMode::Food => "ЕДА",
        ChronicleGraphMode::Viability => "ЖИЗНЬ",
        ChronicleGraphMode::Energy => "ЭНЕРГИЯ",
    }
}

/// Explanation of a graph mode.
fn chronicle_graph_mode_description(v: ChronicleGraphMode) -> (text: &'static str)
    ensures
        text == graph_mode_description(v),
{
    match v {
        ChronicleGraphMode::Overall => "Общий режим рисует все основные линии вместе: клетки, еду, среднюю жизнеспособность и энергетический баланс.",
        ChronicleGraphMode::Cells => "Отдельный график численности клеток. Удобен, когда общий график слишком шумный.",
        ChronicleGraphMode::Food => "Отдельный график общего количества еды: трава, кормушки и мясо суммарно.",
        ChronicleGraphMode::Viability => "Отдельный график средней жизнеспособности популяции.",
        ChronicleGraphMode::Energy => "Отдельный график внешнего баланса энергии. Нулевая линия показывает границу между плюсом и минусом.",
    }
}

/// Heading and explanation of a legend line.
pub fn chronicle_legend_line_copy(line: ChronicleLegendLine) -> (copy: (&'static str, &'static str))
    ensures
        copy == (legend_heading(line), legend_description(line)),
{
    match line {
        ChronicleLegendLine::Cells => ("КЛЕТКИ", "Зелёная линия показывает численность живых клеток в последних срезах хроники."),
        ChronicleLegendLine::Food => ("ЕДА", "Жёлтая линия показывает общее количество активной еды: дикая трава, кормушки и мясо."),
        ChronicleLegendLine::Viability => ("ЖИЗНЕСПОСОБНОСТЬ", "Белая линия показывает средний процент жизнеспособности популяции: общий запас энергии и здоровья."),
        ChronicleLegendLine::EnergyPositive => ("БАЛАНС ЭНЕРГИИ: ПЛЮС", "Зелёный участок баланса означает, что внешний приток еды и энергии выше расходов экосистемы."),
        ChronicleLegendLine::EnergyNegative => ("БАЛАНС ЭНЕРГИИ: МИНУС", "Красный участок баланса означает, что расходы экосистемы выше внешнего притока."),
    }
}

/// Heading and text of a chronicle tooltip. `event_kinds` are the
/// categories of the events in memory, `snapshots` the number of snapshots,
/// `filters` the enabled categories and `current_value` the formatted
/// current value of a summary figure, when there is a snapshot.
pub open spec fn tooltip_text(
    kind: ChronicleTooltipKind,
    event_kinds: Seq<ChronicleEventKind>,
    snapshots: nat,
    filters: u8,
    current_value: Option<Seq<char>>,
) -> (Seq<char>, Seq<char>) {
    match kind {
        ChronicleTooltipKind::Summary(metric) => (
            summary_heading(metric)@,
            summary_description(metric)@ + match current_value {
                Some(value) => "\nТекущее значение: "@ + value + "."@,
                None => Seq::empty(),
            },
        ),
        ChronicleTooltipKind::Filter(k) => (
            "ФИЛЬТР: "@ + filter_heading(k)@,
            filter_description(k)@ + "\nСейчас фильтр "@
                + (if filter_enabled(filters, k) { "включён"@ } else { "выключен"@ })
                + "; событий этого типа в памяти: "@ + decimal_text(count_kind(event_kinds, k) as nat) + "."@,
        ),
        ChronicleTooltipKind::Graph => (
            "ГРАФИК СРЕЗОВ"@,
            "График показывает последние "@ + decimal_text(snapshots)
                + " срезов мира. Линии нормализованы каждая по своему диапазону, поэтому форма линии важнее абсолютной высоты. Срезы нужны для быстрого чтения трендов: рост, спад, дефицит и восстановление."@,
        ),
        ChronicleTooltipKind::GraphMode(mode) => ("ГРАФИК: "@ + graph_mode_heading(mode)@, graph_mode_description(mode)@),
        ChronicleTooltipKind::Legend(line) => (legend_heading(line)@, legend_description(line)@),
    }
}

/// Heading and text of the tooltip of a chronicle panel element.
pub fn chronicle_tooltip_copy(
    kind: ChronicleTooltipKind,
    event_kinds: &Vec<ChronicleEventKind>,
    snapshots: usize,
    state: &ChronicleUiState,
    current_value: Option<&str>,
) -> (copy: (String, String))
    ensures
        (copy.0@, copy.1@) == tooltip_text(
            kind,
            event_kinds@,
            snapshots as nat,
            state.event_filters,
            match current_value {
                Some(value) => Some(value@),
                None => None,
            },
        ),
{
    match kind {
        ChronicleTooltipKind::Summary(metric) => {
            let heading = String::from_str(chronicle_summary_heading(metric));
            let mut body = String::from_str(chronicle_summary_description(metric));
            match current_value {
                Some(value) => {
                    body.append("\nТекущее значение: ");
                    body.append(value);
                    body.append(".");
                    assert(body@ =~= summary_description(metric)@ + ("\nТекущее значение: "@ + value@ + "."@));
                },
                None => {
                    assert(body@ =~= summary_description(metric)@ + Seq::<char>::empty());
                },
            }
            (heading, body)
        },
        ChronicleTooltipKind::Filter(k) => {
            let mut heading = String::from_str("ФИЛЬТР: ");
            heading.append(chronicle_filter_heading(k));
            let mut body = String::from_str(chronicle_filter_description(k));
            body.append("\nСейчас фильтр ");
            if state.event_enabled(k) {
                body.append("включён");
            } else {
                body.append("выключен");
            }
            body.append("; событий этого типа в памяти: ");
            let count = chronicle_count_events(event_kinds, k);
            append_decimal(&mut body, count as u64);
            body.append(".");
            (heading, body)
        },
        ChronicleTooltipKind::Graph => {
            let heading = String::from_str("ГРАФИК СРЕЗОВ");
            let mut body = String::from_str("График показывает последние ");
            append_decimal(&mut body, snapshots as u64);
            body.append(" срезов мира. Линии нормализованы каждая по своему диапазону, поэтому форма линии важнее абсолютной высоты. Срезы нужны для быстрого чтения трендов: рост, спад, дефицит и восстановление.");
            (heading, body)
        },
        ChronicleTooltipKind::GraphMode(mode) => {
            let mut heading = String::from_str("ГРАФИК: ");
            heading.append(chronicle_graph_mode_heading(mode));
            (heading, String::from_str(chronicle_graph_mode_description(mode)))
        },
        ChronicleTooltipKind::Legend(line) => {
            let (heading, description) = chronicle_legend_line_copy(line);
            (String::from_str(heading), String::from_str(description))
        },
    }
}

} // verus!
