use vstd::prelude::*;
use crate::census::{
    census_updated, distinct_counts, note_kind, chronicle_note_kind, update_chronicle_census, CensusSample, ChronicleCensus,
    ChronicleEnergyState, ChronicleNote,
};
use crate::chronicle::{
    bounded_push, chronicle_event_marker, chronicle_push_snapshot, CHRONICLE_MAX_SNAPSHOTS, chronicle_listed_events, chronicle_push_event, chronicle_time_label,
    event_marker, listed_events, time_label, ChronicleEventKind, ChronicleUiState, SimulationChronicle,
    CHRONICLE_MAX_EVENTS,
};
use crate::taxonomy::{species_name, species_name_for, string_views, SpeciesNameBook};
use crate::text::{append_decimal, decimal_text};

verus! {

/// An entry of the chronicle: when it happened (in whole seconds of
/// simulated time), its category, a title, a text, and the species it is
/// about, if any.
pub struct ChronicleEvent {
    pub time_seconds: u32,
    pub kind: ChronicleEventKind,
    pub title: String,
    pub body: String,
    pub species: Option<u32>,
}

/// The categories of the events, in order.
pub open spec fn event_kinds(events: Seq<ChronicleEvent>) -> Seq<ChronicleEventKind> {
    events.map_values(|e: ChronicleEvent| e.kind)
}

/// The species reference of an event line, such as " · вид #12".
pub open spec fn species_suffix(species: Option<u32>) -> Seq<char> {
    match species {
        Some(id) => " · вид #"@ + decimal_text(id as nat),
        None => Seq::empty(),
    }
}

/// The two lines of an event: marker, time, title and species, then the
/// text, each ended by a newline.
pub open spec fn event_line(e: ChronicleEvent) -> Seq<char> {
    event_marker(e.kind)@ + " "@ + time_label(e.time_seconds as nat) + " · "@ + e.title@ + species_suffix(e.species)
        + "\n"@ + e.body@ + "\n"@
}

/// The events at positions `order`, one after the other, separated by an
/// empty line.
pub open spec fn joined_events(events: Seq<ChronicleEvent>, order: Seq<int>) -> Seq<char>
    decreases order.len(),
{
    if order.len() == 0 {
        Seq::empty()
    } else if order.len() == 1 {
        event_line(events[order[0]])
    } else {
        joined_events(events, order.drop_last()) + "\n"@ + event_line(events[order.last()])
    }
}

/// The text of the chronicle event list: the shown events newest first, or
/// a note when there are no events or the filters hide them all.
pub open spec fn event_list_text(events: Seq<ChronicleEvent>, filters: u8) -> Seq<char> {
    let order = listed_events(event_kinds(events), filters);
    if events.len() == 0 {
        "события появятся после первых изменений экосистемы"@
    } else if order.len() == 0 {
        "нет событий с включенными фильтрами"@
    } else {
        joined_events(events, order)
    }
}

proof fn lemma_listed_in_range(kinds: Seq<ChronicleEventKind>, filters: u8)
    ensures
        forall|k: int| 0 <= k < listed_events(kinds, filters).len() ==> 0 <= #[trigger] listed_events(kinds, filters)[k] < kinds.len(),
    decreases kinds.len(),
{
    if kinds.len() > 0 {
        let rest = listed_events(kinds.drop_last(), filters);
        lemma_listed_in_range(kinds.drop_last(), filters);
        let l = listed_events(kinds, filters);
        assert forall|k: int| 0 <= k < l.len() implies 0 <= #[trigger] l[k] < kinds.len() by {
            if crate::chronicle::filter_enabled(filters, kinds.last()) {
                if k > 0 {
                    assert(l[k] == rest[k - 1]);
                }
            } else {
                assert(l[k] == rest[k]);
            }
        }
    }
}

fn append_event_line(text: &mut String, e: &ChronicleEvent)
    ensures
        final(text)@ == old(text)@ + event_line(*e),
{
    text.append(chronicle_event_marker(e.kind));
    text.append(" ");
    let time = chronicle_time_label(e.time_seconds);
    text.append(time.as_str());
    text.append(" · ");
    text.append(e.title.as_str());
    match e.species {
        Some(id) => {
            text.append(" · вид #");
            append_decimal(text, id as u64);
        },
        None => {},
    }
    text.append("\n");
    text.append(e.body.as_str());
    text.append("\n");
    assert(text@ =~= old(text)@ + event_line(*e));
}

/// The text of the event list of the chronicle panel for the given filters.
pub fn chronicle_event_list_text(events: &Vec<ChronicleEvent>, state: &ChronicleUiState) -> (text: String)
    ensures
        text@ == event_list_text(events@, state.event_filters),
{
    if events.len() == 0 {
        return String::from_str("события появятся после первых изменений экосистемы");
    }
    let mut kinds: Vec<ChronicleEventKind> = Vec::new();
    let mut i: usize = 0;
    while i < events.len()
        invariant
            i <= events.len(),
            kinds@ == event_kinds(events@).take(i as int),
        decreases events.len() - i,
    {
        kinds.push(events[i].kind);
        assert(event_kinds(events@).take(i + 1) =~= event_kinds(events@).take(i as int).push(events@[i as int].kind));
        i = i + 1;
    }
    assert(kinds@ =~= event_kinds(events@));
    let order = chronicle_listed_events(&kinds, state);
    let ghost listed = listed_events(event_kinds(events@), state.event_filters);
    assert(order@.len() == listed.len());
    if order.len() == 0 {
        return String::from_str("нет событий с включенными фильтрами");
    }
    proof {
        lemma_listed_in_range(event_kinds(events@), state.event_filters);
        assert forall|k: int| 0 <= k < order@.len() implies #[trigger] order@[k] as int == listed[k] by {
            assert(order@.map_values(|i: usize| i as int)[k] == order@[k] as int);
        }
    }
    let mut text = String::new();
    let mut k: usize = 0;
    while k < order.len()
        invariant
            k <= order.len(),
            order@.len() == listed.len(),
            listed == listed_events(event_kinds(events@), state.event_filters),
            forall|j: int| 0 <= j < order@.len() ==> #[trigger] order@[j] as int == listed[j],
            forall|j: int| 0 <= j < listed.len() ==> 0 <= #[trigger] listed[j] < events.len(),
            text@ == joined_events(events@, listed.take(k as int)),
        decreases order.len() - k,
    {
        let index = order[k];
        assert(listed.take(k + 1).drop_last() =~= listed.take(k as int));
        assert(listed.take(k + 1).last() == index as int);
        if k > 0 {
            text.append("\n");
        } else {
            assert(text@ =~= Seq::<char>::empty());
        }
        append_event_line(&mut text, &events[index]);
        proof {
            if k == 0 {
                assert(text@ =~= event_line(events@[listed.take(1)[0]]));
            }
        }
        k = k + 1;
    }
    assert(listed.take(order.len() as int) =~= listed);
    text
}


/// Title of the chronicle entry of a note.
pub open spec fn note_title(note: ChronicleNote) -> Seq<char> {
    match note {
        ChronicleNote::Started { .. } => "Запуск экосистемы"@,
        ChronicleNote::NewSpecies { .. } => "Новый вид"@,
        ChronicleNote::SpeciesPeak { .. } => "Пик вида"@,
        ChronicleNote::Extinction { .. } => "Вид вымер"@,
        ChronicleNote::NewDominant { .. } => "Новый доминант"@,
        ChronicleNote::EnergyShift { state } => match state {
            ChronicleEnergyState::Deficit => "Энергетический дефицит"@,
            ChronicleEnergyState::Surplus => "Энергетический профицит"@,
            ChronicleEnergyState::Balanced => "Энергия стабилизировалась"@,
        },
        ChronicleNote::PopulationSurge { .. } => "Всплеск популяции"@,
        ChronicleNote::PopulationCrash { .. } => "Обвал популяции"@,
        ChronicleNote::LysisAppeared { .. } => "Появился лизис"@,
        ChronicleNote::SegmentationAppeared { .. } => "Появилась многосегментность"@,
    }
}

/// Energy-shift entries name the energy state they report: a deficit is
/// titled "Энергетический дефицит", a surplus "Энергетический профицит", a
/// return to balance "Энергия стабилизировалась", so that entries of
/// different energy states never share a title.
pub proof fn lemma_energy_titles_distinct(a: ChronicleEnergyState, b: ChronicleEnergyState)
    ensures
        note_title(ChronicleNote::EnergyShift { state: ChronicleEnergyState::Deficit }) == "Энергетический дефицит"@,
        note_title(ChronicleNote::EnergyShift { state: ChronicleEnergyState::Surplus }) == "Энергетический профицит"@,
        note_title(ChronicleNote::EnergyShift { state: ChronicleEnergyState::Balanced }) == "Энергия стабилизировалась"@,
        a != b ==> note_title(ChronicleNote::EnergyShift { state: a }) != note_title(ChronicleNote::EnergyShift { state: b }),
{
    reveal_strlit("Энергетический дефицит");
    reveal_strlit("Энергетический профицит");
    reveal_strlit("Энергия стабилизировалась");
    assert("Энергетический дефицит"@.len() == 22);
    assert("Энергетический профицит"@.len() == 23);
    assert("Энергия стабилизировалась"@.len() == 25);
}

/// Each kind of note has a title of its own: two notes share a title only
/// when they are of the same kind (and, for energy shifts, report the same
/// energy state).
pub proof fn lemma_note_titles_distinct(a: ChronicleNote, b: ChronicleNote)
    ensures
        note_title(a) == note_title(b) ==> {
            &&& (a is Started <==> b is Started)
            &&& (a is NewSpecies <==> b is NewSpecies)
            &&& (a is SpeciesPeak <==> b is SpeciesPeak)
            &&& (a is Extinction <==> b is Extinction)
            &&& (a is NewDominant <==> b is NewDominant)
            &&& (a is EnergyShift <==> b is EnergyShift)
            &&& (a is EnergyShift ==> a->state == b->state)
            &&& (a is PopulationSurge <==> b is PopulationSurge)
            &&& (a is PopulationCrash <==> b is PopulationCrash)
            &&& (a is LysisAppeared <==> b is LysisAppeared)
            &&& (a is SegmentationAppeared <==> b is SegmentationAppeared)
        },
{
    reveal_strlit("Запуск экосистемы");
    reveal_strlit("Новый вид");
    reveal_strlit("Пик вида");
    reveal_strlit("Вид вымер");
    reveal_strlit("Новый доминант");
    reveal_strlit("Энергетический дефицит");
    reveal_strlit("Энергетический профицит");
    reveal_strlit("Энергия стабилизировалась");
    reveal_strlit("Всплеск популяции");
    reveal_strlit("Обвал популяции");
    reveal_strlit("Появился лизис");
    reveal_strlit("Появилась многосегментность");
    assert("Запуск экосистемы"@.len() == 17 && "Запуск экосистемы"@[0] == 'З');
    assert("Новый вид"@.len() == 9 && "Новый вид"@[0] == 'Н');
    assert("Пик вида"@.len() == 8);
    assert("Вид вымер"@.len() == 9 && "Вид вымер"@[0] == 'В');
    assert("Новый доминант"@.len() == 14 && "Новый доминант"@[0] == 'Н');
    assert("Энергетический дефицит"@.len() == 22);
    assert("Энергетический профицит"@.len() == 23);
    assert("Энергия стабилизировалась"@.len() == 25);
    assert("Всплеск популяции"@.len() == 17 && "Всплеск популяции"@[0] == 'В');
    assert("Обвал популяции"@.len() == 15);
    assert("Появился лизис"@.len() == 14 && "Появился лизис"@[0] == 'П');
    assert("Появилась многосегментность"@.len() == 27);
}

/// The species a note is about, if any.
pub open spec fn note_species(note: ChronicleNote) -> Option<u32> {
    match note {
        ChronicleNote::NewSpecies { species, .. } => Some(species),
        ChronicleNote::SpeciesPeak { species, .. } => Some(species),
        ChronicleNote::Extinction { species } => Some(species),
        ChronicleNote::NewDominant { species, .. } => Some(species),
        _ => None,
    }
}

/// Text of the chronicle entry of a note, for the notes whose text is made
/// of counts and names alone; `None` for those whose text shows measured
/// values (a new species' shape and diet, a share, an energy balance or a
/// population ratio), which the caller formats.
pub open spec fn note_body(
    note: ChronicleNote,
    prefixes: Seq<Seq<char>>,
    suffixes: Seq<Seq<char>>,
    epithets: Seq<Seq<char>>,
) -> Option<Seq<char>> {
    match note {
        ChronicleNote::Started { cells, food, species_total } => Some(
            decimal_text(cells as nat) + " клеток, "@ + decimal_text(food as nat) + " еды, "@
                + decimal_text(species_total as nat) + " стартовых видов."@,
        ),
        ChronicleNote::SpeciesPeak { species, from, to } => Some(
            species_name(prefixes, suffixes, epithets, species) + " вырос с "@ + decimal_text(from as nat) + " до "@
                + decimal_text(to as nat) + " живых."@,
        ),
        ChronicleNote::Extinction { species } => Some(
            species_name(prefixes, suffixes, epithets, species) + ": последний живой представитель исчез."@,
        ),
        ChronicleNote::LysisAppeared { cells } => Some(decimal_text(cells as nat) + " клеток способны к ближней атаке."@),
        ChronicleNote::SegmentationAppeared { cells } => Some(
            decimal_text(cells as nat) + " клеток имеют несколько секций тела."@,
        ),
        _ => None,
    }
}

/// `event` is the chronicle entry of `note` at `time_seconds`, whose text
/// is `measured_body` where the note's text shows measured values.
pub open spec fn event_of_note(
    event: ChronicleEvent,
    note: ChronicleNote,
    prefixes: Seq<Seq<char>>,
    suffixes: Seq<Seq<char>>,
    epithets: Seq<Seq<char>>,
    time_seconds: u32,
    measured_body: Seq<char>,
) -> bool {
    &&& event.kind == note_kind(note)
    &&& event.time_seconds == time_seconds
    &&& event.species == note_species(note)
    &&& event.title@ == note_title(note)
    &&& event.body@ == match note_body(note, prefixes, suffixes, epithets) {
        Some(body) => body,
        None => measured_body,
    }
}

fn note_title_text(note: &ChronicleNote) -> (title: String)
    ensures
        title@ == note_title(*note),
{
    let text = match note {
        ChronicleNote::Started { .. } => "Запуск экосистемы",
        ChronicleNote::NewSpecies { .. } => "Новый вид",
        ChronicleNote::SpeciesPeak { .. } => "Пик вида",
        ChronicleNote::Extinction { .. } => "Вид вымер",
        ChronicleNote::NewDominant { .. } => "Новый доминант",
        ChronicleNote::EnergyShift { state } => match state {
            ChronicleEnergyState::Deficit => "Энергетический дефицит",
            ChronicleEnergyState::Surplus => "Энергетический профицит",
            ChronicleEnergyState::Balanced => "Энергия стабилизировалась",
        },
        ChronicleNote::PopulationSurge { .. } => "Всплеск популяции",
        ChronicleNote::PopulationCrash { .. } => "Обвал популяции",
        ChronicleNote::LysisAppeared { .. } => "Появился лизис",
        ChronicleNote::SegmentationAppeared { .. } => "Появилась многосегментность",
    };
    String::from_str(text)
}

/// The chronicle entry of a census note at `time_seconds`. Notes whose text
/// shows measured values take `measured_body` as their text.
pub fn chronicle_note_event(note: &ChronicleNote, names: &SpeciesNameBook, time_seconds: u32, measured_body: &str) -> (event: ChronicleEvent)
    requires
        names.inv(),
    ensures
        event_of_note(event, *note, string_views(names.prefixes@), string_views(names.suffixes@),
            string_views(names.epithets@), time_seconds, measured_body@),
        *note == (ChronicleNote::EnergyShift { state: ChronicleEnergyState::Deficit })
            ==> event.title@ == "Энергетический дефицит"@,
        *note == (ChronicleNote::EnergyShift { state: ChronicleEnergyState::Surplus })
            ==> event.title@ == "Энергетический профицит"@,
        *note == (ChronicleNote::EnergyShift { state: ChronicleEnergyState::Balanced })
            ==> event.title@ == "Энергия стабилизировалась"@,
{
    proof {
        lemma_energy_titles_distinct(ChronicleEnergyState::Deficit, ChronicleEnergyState::Surplus);
    }
    let title = note_title_text(note);
    let mut body = String::new();
    let species: Option<u32> = match note {
        ChronicleNote::Started { cells, food, species_total } => {
            append_decimal(&mut body, *cells as u64);
            body.append(" клеток, ");
            append_decimal(&mut body, *food as u64);
            body.append(" еды, ");
            append_decimal(&mut body, *species_total as u64);
            body.append(" стартовых видов.");
            None
        },
        ChronicleNote::SpeciesPeak { species, from, to } => {
            let name = species_name_for(names, *species);
            body.append(name.as_str());
            body.append(" вырос с ");
            append_decimal(&mut body, *from as u64);
            body.append(" до ");
            append_decimal(&mut body, *to as u64);
            body.append(" живых.");
            Some(*species)
        },
        ChronicleNote::Extinction { species } => {
            let name = species_name_for(names, *species);
            body.append(name.as_str());
            body.append(": последний живой представитель исчез.");
            Some(*species)
        },
        ChronicleNote::LysisAppeared { cells } => {
            append_decimal(&mut body, *cells as u64);
            body.append(" клеток способны к ближней атаке.");
            None
        },
        ChronicleNote::SegmentationAppeared { cells } => {
            append_decimal(&mut body, *cells as u64);
            body.append(" клеток имеют несколько секций тела.");
            None
        },
        ChronicleNote::NewSpecies { species, .. } => {
            body.append(measured_body);
            Some(*species)
        },
        ChronicleNote::NewDominant { species, .. } => {
            body.append(measured_body);
            Some(*species)
        },
        _ => {
            body.append(measured_body);
            None
        },
    };
    let ghost p = string_views(names.prefixes@);
    let ghost x = string_views(names.suffixes@);
    let ghost e = string_views(names.epithets@);
    assert(body@ =~= match note_body(*note, p, x, e) {
        Some(b) => b,
        None => measured_body@,
    });
    ChronicleEvent { time_seconds, kind: chronicle_note_kind(note), title, body, species }
}

/// `log` after pushing each of `items` in turn onto a log that keeps at
/// most `cap` entries.
pub open spec fn pushed_all<T>(log: Seq<T>, items: Seq<T>, cap: nat) -> Seq<T>
    decreases items.len(),
{
    if items.len() == 0 { log } else { bounded_push(pushed_all(log, items.drop_last(), cap), items.last(), cap) }
}

/// Writes the notes of a census sample into the chronicle, in order, as
/// entries at `time_seconds`; `measured_bodies[i]` is the text of note `i`
/// when that note shows measured values. Each entry advances the revision.
pub fn record_census_notes<S>(
    chronicle: &mut SimulationChronicle<S, ChronicleEvent>,
    notes: &Vec<ChronicleNote>,
    names: &SpeciesNameBook,
    time_seconds: u32,
    measured_bodies: &Vec<String>,
)
    requires
        old(chronicle).inv(),
        names.inv(),
        measured_bodies.len() == notes.len(),
    ensures
        final(chronicle).inv(),
        final(chronicle).snapshots@ == old(chronicle).snapshots@,
        final(chronicle).revision as int == (old(chronicle).revision as int + notes.len()) % 0x1_0000_0000_0000_0000,
        exists|events: Seq<ChronicleEvent>| {
            &&& events.len() == notes.len()
            &&& forall|i: int| 0 <= i < notes.len() ==> event_of_note(#[trigger] events[i], notes@[i],
                string_views(names.prefixes@), string_views(names.suffixes@), string_views(names.epithets@),
                time_seconds, measured_bodies@[i]@)
            &&& final(chronicle).events@ == pushed_all(old(chronicle).events@, events, CHRONICLE_MAX_EVENTS as nat)
        },
{
    let ghost p = string_views(names.prefixes@);
    let ghost x = string_views(names.suffixes@);
    let ghost e = string_views(names.epithets@);
    let ghost start_events = chronicle.events@;
    let ghost start_revision = chronicle.revision;
    let ghost mut events: Seq<ChronicleEvent> = Seq::empty();
    let mut i: usize = 0;
    while i < notes.len()
        invariant
            i <= notes.len(),
            measured_bodies.len() == notes.len(),
            names.inv(),
            chronicle.inv(),
            chronicle.snapshots@ == old(chronicle).snapshots@,
            start_events == old(chronicle).events@,
            start_revision == old(chronicle).revision,
            p == string_views(names.prefixes@),
            x == string_views(names.suffixes@),
            e == string_views(names.epithets@),
            chronicle.revision as int == (start_revision as int + i) % 0x1_0000_0000_0000_0000,
            events.len() == i,
            forall|k: int| 0 <= k < i ==> event_of_note(#[trigger] events[k], notes@[k], p, x, e, time_seconds, measured_bodies@[k]@),
            chronicle.events@ == pushed_all(start_events, events, CHRONICLE_MAX_EVENTS as nat),
        decreases notes.len() - i,
    {
        let event = chronicle_note_event(&notes[i], names, time_seconds, measured_bodies[i].as_str());
        let ghost before = events;
        proof {
            events = events.push(event);
            assert(events.drop_last() =~= before);
        }
        let ghost revision = chronicle.revision;
        chronicle_push_event(chronicle, event);
        proof {
            let m: int = 0x1_0000_0000_0000_0000;
            vstd::arithmetic::div_mod::lemma_add_mod_noop(start_revision as int + i, 1, m);
            vstd::arithmetic::div_mod::lemma_small_mod(1, m as nat);
            if revision == u64::MAX {
                vstd::arithmetic::div_mod::lemma_mod_self_0(m);
            } else {
                vstd::arithmetic::div_mod::lemma_small_mod((revision + 1) as nat, m as nat);
            }
            assert(events[i as int] == event);
            assert forall|k: int| 0 <= k < i + 1 implies event_of_note(#[trigger] events[k], notes@[k], p, x, e, time_seconds, measured_bodies@[k]@) by {
                if k < i {
                    assert(events[k] == before[k]);
                }
            }
        }
        i = i + 1;
    }
}


/// Takes one sample of the world into the chronicle: the snapshot is
/// appended, and the census folds in the sample, as the first sample of the
/// run when the chronicle held no snapshot yet. Returns whether it was the
/// first sample and the notes the census calls for, which the caller turns
/// into entries with `record_census_notes` once it has formatted their
/// measured values.
pub fn sample_chronicle<S>(
    chronicle: &mut SimulationChronicle<S, ChronicleEvent>,
    census: &mut ChronicleCensus,
    snapshot: S,
    sample: &CensusSample,
) -> (out: (bool, Vec<ChronicleNote>))
    requires
        old(chronicle).inv(),
        old(census).inv(),
        distinct_counts(sample.counts@),
    ensures
        out.0 == (old(chronicle).snapshots@.len() == 0),
        final(chronicle).inv(),
        final(chronicle).snapshots@ == bounded_push(old(chronicle).snapshots@, snapshot, CHRONICLE_MAX_SNAPSHOTS as nat),
        final(chronicle).events@ == old(chronicle).events@,
        final(chronicle).revision == (if old(chronicle).revision == u64::MAX { 0 } else { (old(chronicle).revision + 1) as u64 }),
        final(census).inv(),
        census_updated(*old(census), *final(census), *sample, out.0, out.1@),
{
    let first_sample = chronicle.snapshots.len() == 0;
    chronicle_push_snapshot(chronicle, snapshot);
    let notes = update_chronicle_census(census, sample, first_sample);
    (first_sample, notes)
}

} // verus!
