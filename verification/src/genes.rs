use vstd::prelude::*;

verus! {

/// A gene or state figure shown for a selected cell.
#[derive(Clone, Copy, PartialEq, Eq, Structural, Debug)]
pub enum GeneStatId {
    Viability,
    Speed,
    Turn,
    Perception,
    Persistence,
    Aggressiveness,
    Diet,
    Lysis,
    Mutation,
    Size,
}

/// Group under which a gene figure is listed.
#[derive(Clone, Copy, PartialEq, Eq, Structural, Debug)]
pub enum GeneCategory {
    State,
    Morphology,
    Movement,
    Behavior,
    Heredity,
}

/// How a gene figure is presented: its label, icon, group, and whether it
/// is shown in the compact panel.
#[derive(Clone, Copy, Debug)]
pub struct GeneStatDescriptor {
    pub id: GeneStatId,
    pub label: &'static str,
    pub icon: &'static str,
    pub category: GeneCategory,
    pub compact: bool,
}

/// The gene figures in display order.
pub open spec fn gene_descriptors() -> Seq<GeneStatDescriptor> {
    seq![
        GeneStatDescriptor { id: GeneStatId::Viability, label: "Жизнеспособность", icon: "sprites/gene-viability.png", category: GeneCategory::State, compact: true },
        GeneStatDescriptor { id: GeneStatId::Speed, label: "Скорость", icon: "sprites/gene-speed.png", category: GeneCategory::Movement, compact: true },
        GeneStatDescriptor { id: GeneStatId::Turn, label: "Поворотливость", icon: "sprites/gene-maneuverability.png", category: GeneCategory::Movement, compact: true },
        GeneStatDescriptor { id: GeneStatId::Perception, label: "Восприятие", icon: "sprites/gene-perception.png", category: GeneCategory::Behavior, compact: true },
        GeneStatDescriptor { id: GeneStatId::Persistence, label: "Настойчивость", icon: "sprites/gene-persistence.png", category: GeneCategory::Behavior, compact: true },
        GeneStatDescriptor { id: GeneStatId::Aggressiveness, label: "Агрессивность", icon: "sprites/gene-aggressiveness.png", category: GeneCategory::Behavior, compact: true },
        GeneStatDescriptor { id: GeneStatId::Diet, label: "Рацион", icon: "sprites/gene-type-biotroph.png", category: GeneCategory::Behavior, compact: true },
        GeneStatDescriptor { id: GeneStatId::Lysis, label: "Лизис", icon: "sprites/gene-lysis.png", category: GeneCategory::Behavior, compact: true },
        GeneStatDescriptor { id: GeneStatId::Mutation, label: "Мутации", icon: "sprites/gene-mutation.png", category: GeneCategory::Heredity, compact: true },
        GeneStatDescriptor { id: GeneStatId::Size, label: "Размер", icon: "sprites/gene-size.png", category: GeneCategory::Morphology, compact: true },
    ]
}

/// The gene figures of the selection panels, in display order.
pub fn gene_stat_descriptors() -> (descriptors: Vec<GeneStatDescriptor>)
    ensures
        descriptors@ == gene_descriptors(),
{
    let descriptors = vec![
        GeneStatDescriptor { id: GeneStatId::Viability, label: "Жизнеспособность", icon: "sprites/gene-viability.png", category: GeneCategory::State, compact: true },
        GeneStatDescriptor { id: GeneStatId::Speed, label: "Скорость", icon: "sprites/gene-speed.png", category: GeneCategory::Movement, compact: true },
        GeneStatDescriptor { id: GeneStatId::Turn, label: "Поворотливость", icon: "sprites/gene-maneuverability.png", category: GeneCategory::Movement, compact: true },
        GeneStatDescriptor { id: GeneStatId::Perception, label: "Восприятие", icon: "sprites/gene-perception.png", category: GeneCategory::Behavior, compact: true },
        GeneStatDescriptor { id: GeneStatId::Persistence, label: "Настойчивость", icon: "sprites/gene-persistence.png", category: GeneCategory::Behavior, compact: true },
        GeneStatDescriptor { id: GeneStatId::Aggressiveness, label: "Агрессивность", icon: "sprites/gene-aggressiveness.png", category: GeneCategory::Behavior, compact: true },
        GeneStatDescriptor { id: GeneStatId::Diet, label: "Рацион", icon: "sprites/gene-type-biotroph.png", category: GeneCategory::Behavior, compact: true },
        GeneStatDescriptor { id: GeneStatId::Lysis, label: "Лизис", icon: "sprites/gene-lysis.png", category: GeneCategory::Behavior, compact: true },
        GeneStatDescriptor { id: GeneStatId::Mutation, label: "Мутации", icon: "sprites/gene-mutation.png", category: GeneCategory::Heredity, compact: true },
        GeneStatDescriptor { id: GeneStatId::Size, label: "Размер", icon: "sprites/gene-size.png", category: GeneCategory::Morphology, compact: true },
    ];
    assert(descriptors@ =~= gene_descriptors());
    descriptors
}

/// Heading and explanation of a gene tooltip.
pub open spec fn gene_tooltip(kind: GeneStatId) -> (&'static str, &'static str) {
    match kind {
        GeneStatId::Viability => ("ЖИЗНЕСПОСОБНОСТЬ", "Общий запас энергии и здоровья. Восполняется пищей, тратится в покое; геометрия формы меняет итоговый запас."),
        GeneStatId::Size => ("РАЗМЕР", "Физический масштаб тела. Крупная клетка устойчивее в столкновениях и хранит больше запаса, но требует больше энергии."),
        GeneStatId::Speed => ("СКОРОСТЬ", "Предельная скорость движения вперед. Форма тела меняет реальный результат, а быстрые клетки платят повышенным метаболизмом."),
        GeneStatId::Turn => ("ПОВОРОТЛИВОСТЬ", "Скорость изменения направления головы. Геометрия и многосегментность могут снижать реальную маневренность."),
        GeneStatId::Perception => ("ВОСПРИЯТИЕ", "Радиус обнаружения еды и других целей. Дальние объекты остаются невидимыми, пока не попадут в этот радиус."),
        GeneStatId::Persistence => ("НАСТОЙЧИВОСТЬ", "Определяет верность выбранной цели, частоту ее смены и длительность преследования последней известной позиции."),
        GeneStatId::Aggressiveness => ("АГРЕССИВНОСТЬ", "Желание самостоятельно начинать охоту. Также сдвигает питание: высокая агрессивность улучшает усвоение мяса, но ухудшает усвоение травы."),
        GeneStatId::Diet => ("РАЦИОН", "Пищевой профиль по агрессивности: биотроф лучше ест траву, гемибиотроф держит середину, некротроф делает ставку на мясо."),
        GeneStatId::Lysis => ("ЛИЗИС", "Контактная атака по жизнеспособности жертвы. Развитие повышает урон и частоту ударов, но имеет цену."),
        GeneStatId::Mutation => ("МУТАЦИИ", "Вероятность и сила наследственных изменений при делении: гены, лучи формы и топология сегментов."),
    }
}

/// Heading and explanation shown in the tooltip of a gene figure.
pub fn gene_tooltip_copy(kind: GeneStatId) -> (copy: (&'static str, &'static str))
    ensures
        copy == gene_tooltip(kind),
{
    match kind {
        GeneStatId::Viability => ("ЖИЗНЕСПОСОБНОСТЬ", "Общий запас энергии и здоровья. Восполняется пищей, тратится в покое; геометрия формы меняет итоговый запас."),
        GeneStatId::Size => ("РАЗМЕР", "Физический масштаб тела. Крупная клетка устойчивее в столкновениях и хранит больше запаса, но требует больше энергии."),
        GeneStatId::Speed => ("СКОРОСТЬ", "Предельная скорость движения вперед. Форма тела меняет реальный результат, а быстрые клетки платят повышенным метаболизмом."),
        GeneStatId::Turn => ("ПОВОРОТЛИВОСТЬ", "Скорость изменения направления головы. Геометрия и многосегментность могут снижать реальную маневренность."),
        GeneStatId::Perception => ("ВОСПРИЯТИЕ", "Радиус обнаружения еды и других целей. Дальние объекты остаются невидимыми, пока не попадут в этот радиус."),
        GeneStatId::Persistence => ("НАСТОЙЧИВОСТЬ", "Определяет верность выбранной цели, частоту ее смены и длительность преследования последней известной позиции."),
        GeneStatId::Aggressiveness => ("АГРЕССИВНОСТЬ", "Желание самостоятельно начинать охоту. Также сдвигает питание: высокая агрессивность улучшает усвоение мяса, но ухудшает усвоение травы."),
        GeneStatId::Diet => ("РАЦИОН", "Пищевой профиль по агрессивности: биотроф лучше ест траву, гемибиотроф держит середину, некротроф делает ставку на мясо."),
        GeneStatId::Lysis => ("ЛИЗИС", "Контактная атака по жизнеспособности жертвы. Развитие повышает урон и частоту ударов, но имеет цену."),
        GeneStatId::Mutation => ("МУТАЦИИ", "Вероятность и сила наследственных изменений при делении: гены, лучи формы и топология сегментов."),
    }
}

/// A figure of the species journal.
#[derive(Clone, Copy, PartialEq, Eq, Structural, Debug)]
pub enum SpeciesJournalMetric {
    Population,
    Viability,
    Size,
    Speed,
    Turn,
    Perception,
    Persistence,
    Aggressiveness,
    Lysis,
    Mutation,
}

/// Label of a species journal figure.
pub open spec fn journal_metric_label(metric: SpeciesJournalMetric) -> &'static str {
    match metric {
        SpeciesJournalMetric::Population => "Численность",
        SpeciesJournalMetric::Viability => "Жизнь",
        SpeciesJournalMetric::Size => "Размер",
        SpeciesJournalMetric::Speed => "Скорость",
        SpeciesJournalMetric::Turn => "Поворот",
        SpeciesJournalMetric::Perception => "Восприятие",
        SpeciesJournalMetric::Persistence => "Настойчивость",
        SpeciesJournalMetric::Aggressiveness => "Агрессия",
        SpeciesJournalMetric::Lysis => "Лизис",
        SpeciesJournalMetric::Mutation => "Мутации",
    }
}

/// Label of a species journal figure.
pub fn species_journal_metric_label(metric: SpeciesJournalMetric) -> (label: &'static str)
    ensures
        label == journal_metric_label(metric),
{
    match metric {
        SpeciesJournalMetric::Population => "Численность",
        SpeciesJournalMetric::Viability => "Жизнь",
        SpeciesJournalMetric::Size => "Размер",
        SpeciesJournalMetric::Speed => "Скорость",
        SpeciesJournalMetric::Turn => "Поворот",
        SpeciesJournalMetric::Perception => "Восприятие",
        SpeciesJournalMetric::Persistence => "Настойчивость",
        SpeciesJournalMetric::Aggressiveness => "Агрессия",
        SpeciesJournalMetric::Lysis => "Лизис",
        SpeciesJournalMetric::Mutation => "Мутации",
    }
}

} // verus!
