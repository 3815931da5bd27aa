use vstd::prelude::*;
use crate::text::{decimal_text, append_decimal};

verus! {

/// Category of an entry in the simulation chronicle.
#[derive(Clone, Copy, PartialEq, Eq, Structural, Debug)]
pub enum ChronicleEventKind {
    World,
    Species,
    Extinction,
    Population,
    Energy,
    Trait,
}

/// Series shown by the chronicle graph.
#[derive(Clone, Copy, PartialEq, Eq, Structural, Debug)]
pub enum ChronicleGraphMode {
    Overall,
    Cells,
    Food,
    Viability,
    Energy,
}

pub const CHRONICLE_FILTER_WORLD: u8 = 1;
pub const CHRONICLE_FILTER_SPECIES: u8 = 2;
pub const CHRONICLE_FILTER_EXTINCTION: u8 = 4;
pub const CHRONICLE_FILTER_POPULATION: u8 = 8;
pub const CHRONICLE_FILTER_ENERGY: u8 = 16;
pub const CHRONICLE_FILTER_TRAIT: u8 = 32;
/// Every event category enabled.
pub const CHRONICLE_ALL_EVENT_FILTERS: u8 = 63;

/// The filter bit that stands for each event category.
pub open spec fn filter_bit(kind: ChronicleEventKind) -> u8 {
    match kind {
        ChronicleEventKind::World => CHRONICLE_FILTER_WORLD,
        ChronicleEventKind::Species => CHRONICLE_FILTER_SPECIES,
        ChronicleEventKind::Extinction => CHRONICLE_FILTER_EXTINCTION,
        ChronicleEventKind::Population => CHRONICLE_FILTER_POPULATION,
        ChronicleEventKind::Energy => CHRONICLE_FILTER_ENERGY,
        ChronicleEventKind::Trait => CHRONICLE_FILTER_TRAIT,
    }
}

/// Filter bit of an event category.
pub fn chronicle_filter_bit(kind: ChronicleEventKind) -> (bit: u8)
    ensures
        bit == filter_bit(kind),
{
    match kind {
        ChronicleEventKind::World => CHRONICLE_FILTER_WORLD,
        ChronicleEventKind::Species => CHRONICLE_FILTER_SPECIES,
        ChronicleEventKind::Extinction => CHRONICLE_FILTER_EXTINCTION,
        ChronicleEventKind::Population => CHRONICLE_FILTER_POPULATION,
        ChronicleEventKind::Energy => CHRONICLE_FILTER_ENERGY,
        ChronicleEventKind::Trait => CHRONICLE_FILTER_TRAIT,
    }
}

/// Whether the filter set `filters` lets events of `kind` through.
pub open spec fn filter_enabled(filters: u8, kind: ChronicleEventKind) -> bool {
    filters & filter_bit(kind) != 0
}

/// Open/closed state, enabled event categories and graph mode of the
/// chronicle panel.
pub struct ChronicleUiState {
    pub open: bool,
    pub event_filters: u8,
    pub graph_mode: ChronicleGraphMode,
}

impl Default for ChronicleUiState {
    fn default() -> (state: Self)
        ensures
            !state.open,
            state.event_filters == CHRONICLE_ALL_EVENT_FILTERS,
            state.graph_mode == ChronicleGraphMode::Overall,
    {
        ChronicleUiState {
            open: false,
            event_filters: CHRONICLE_ALL_EVENT_FILTERS,
            graph_mode: ChronicleGraphMode::Overall,
        }
    }
}

impl ChronicleUiState {
    /// Whether events of `kind` are shown.
    pub fn event_enabled(&self, kind: ChronicleEventKind) -> (enabled: bool)
        ensures
            enabled == filter_enabled(self.event_filters, kind),
    {
        self.event_filters & chronicle_filter_bit(kind) != 0
    }

    /// Flips the filter bit of `kind`, leaving the others as they were.
    pub fn toggle_event_filter(&mut self, kind: ChronicleEventKind)
        ensures
            final(self).event_filters == old(self).event_filters ^ filter_bit(kind),
            final(self).open == old(self).open,
            final(self).graph_mode == old(self).graph_mode,
    {
        self.event_filters = self.event_filters ^ chronicle_filter_bit(kind);
    }
}

proof fn lemma_single_bit_xor(f: u8, a: u8, b: u8)
    by (bit_vector)
    requires
        a == 1 || a == 2 || a == 4 || a == 8 || a == 16 || a == 32,
        b == 1 || b == 2 || b == 4 || b == 8 || b == 16 || b == 32,
    ensures
        ((f ^ a) & a != 0) == !(f & a != 0),
        a != b ==> (((f ^ a) & b != 0) == (f & b != 0)),
        (f ^ a) ^ a == f,
        63u8 & a != 0,
{
}

/// Toggling the filter of one event category flips whether that category
/// is shown, leaves every other category as it was, and toggling it twice
/// restores the filter set. Every category is shown by default.
pub proof fn lemma_filter_toggle(filters: u8, kind: ChronicleEventKind, other: ChronicleEventKind)
    ensures
        filter_enabled(filters ^ filter_bit(kind), kind) == !filter_enabled(filters, kind),
        other != kind ==> filter_enabled(filters ^ filter_bit(kind), other) == filter_enabled(filters, other),
        (filters ^ filter_bit(kind)) ^ filter_bit(kind) == filters,
        filter_enabled(CHRONICLE_ALL_EVENT_FILTERS, kind),
{
    let a = filter_bit(kind);
    let b = filter_bit(other);
    lemma_single_bit_xor(filters, a, b);
    if other != kind {
        assert(a != b);
    }
}

/// Most recent chronicle snapshots kept.
pub const CHRONICLE_MAX_SNAPSHOTS: usize = 900;
/// Most recent chronicle events kept.
pub const CHRONICLE_MAX_EVENTS: usize = 240;

/// `log` after appending `item` to a log that keeps at most `cap` entries:
/// when full, the oldest entry is dropped first.
pub open spec fn bounded_push<T>(log: Seq<T>, item: T, cap: nat) -> Seq<T> {
    if log.len() >= cap { log.drop_first().push(item) } else { log.push(item) }
}

/// The records of a chronicle: its snapshots and events (newest last) and a
/// revision number that changes with every addition.
pub struct SimulationChronicle<S, E> {
    pub revision: u64,
    pub snapshots: Vec<S>,
    pub events: Vec<E>,
}

impl<S, E> SimulationChronicle<S, E> {
    /// The logs hold no more than their capacities.
    pub open spec fn inv(&self) -> bool {
        &&& self.snapshots.len() <= CHRONICLE_MAX_SNAPSHOTS
        &&& self.events.len() <= CHRONICLE_MAX_EVENTS
    }

    /// An empty chronicle at revision 0.
    pub fn new() -> (chronicle: Self)
        ensures
            chronicle.revision == 0,
            chronicle.snapshots@.len() == 0,
            chronicle.events@.len() == 0,
            chronicle.inv(),
    {
        SimulationChronicle { revision: 0, snapshots: Vec::new(), events: Vec::new() }
    }
}

fn push_bounded<T>(log: &mut Vec<T>, item: T, cap: usize)
    requires
        cap > 0,
        old(log).len() <= cap,
    ensures
        final(log)@ == bounded_push(old(log)@, item, cap as nat),
        final(log).len() <= cap,
{
    if log.len() >= cap {
        log.remove(0);
    }
    log.push(item);
}

/// Appends an event, dropping the oldest one when the log is full, and
/// advances the revision (wrapping).
pub fn chronicle_push_event<S, E>(chronicle: &mut SimulationChronicle<S, E>, event: E)
    requires
        old(chronicle).inv(),
    ensures
        final(chronicle).events@ == bounded_push(old(chronicle).events@, event, CHRONICLE_MAX_EVENTS as nat),
        final(chronicle).snapshots@ == old(chronicle).snapshots@,
        final(chronicle).revision == (if old(chronicle).revision == u64::MAX { 0 } else { (old(chronicle).revision + 1) as u64 }),
        final(chronicle).inv(),
{
    push_bounded(&mut chronicle.events, event, CHRONICLE_MAX_EVENTS);
    chronicle.revision = chronicle.revision.wrapping_add(1);
}

/// Appends a snapshot, dropping the oldest one when the log is full, and
/// advances the revision (wrapping).
pub fn chronicle_push_snapshot<S, E>(chronicle: &mut SimulationChronicle<S, E>, snapshot: S)
    requires
        old(chronicle).inv(),
    ensures
        final(chronicle).snapshots@ == bounded_push(old(chronicle).snapshots@, snapshot, CHRONICLE_MAX_SNAPSHOTS as nat),
        final(chronicle).events@ == old(chronicle).events@,
        final(chronicle).revision == (if old(chronicle).revision == u64::MAX { 0 } else { (old(chronicle).revision + 1) as u64 }),
        final(chronicle).inv(),
{
    push_bounded(&mut chronicle.snapshots, snapshot, CHRONICLE_MAX_SNAPSHOTS);
    chronicle.revision = chronicle.revision.wrapping_add(1);
}

/// A push onto a bounded log never makes it exceed its capacity, puts the
/// new item last, and keeps the newest earlier items in their order.
pub proof fn lemma_bounded_push<T>(log: Seq<T>, item: T, cap: nat)
    requires
        cap > 0,
        log.len() <= cap,
    ensures
        bounded_push(log, item, cap).len() <= cap,
        bounded_push(log, item, cap).last() == item,
        log.len() < cap ==> bounded_push(log, item, cap).len() == log.len() + 1,
        log.len() == cap ==> bounded_push(log, item, cap).len() == cap,
        forall|i: int| 0 <= i < bounded_push(log, item, cap).len() - 1 ==>
            #[trigger] bounded_push(log, item, cap)[i] == log[i + log.len() + 1 - bounded_push(log, item, cap).len()],
{
}

/// A figure of the chronicle summary bar.
#[derive(Clone, Copy, PartialEq, Eq, Structural, Debug)]
pub enum ChronicleSummaryMetric {
    Time,
    Cells,
    Species,
    Food,
    Viability,
    Energy,
    Costs,
    Traits,
    Performance,
}

/// Short label of an event category, shown on its filter button.
pub open spec fn filter_label(kind: ChronicleEventKind) -> &'static str {
    match kind {
        ChronicleEventKind::World => "мир",
        ChronicleEventKind::Species => "виды",
        ChronicleEventKind::Extinction => "смерть",
        ChronicleEventKind::Population => "поп.",
        ChronicleEventKind::Energy => "энерг.",
        ChronicleEventKind::Trait => "гены",
    }
}

/// Label of the filter button of an event category.
pub fn chronicle_filter_label(kind: ChronicleEventKind) -> (label: &'static str)
    ensures
        label == filter_label(kind),
{
    match kind {
        ChronicleEventKind::World => "мир",
        ChronicleEventKind::Species => "виды",
        ChronicleEventKind::Extinction => "смерть",
        ChronicleEventKind::Population => "поп.",
        ChronicleEventKind::Energy => "энерг.",
        ChronicleEventKind::Trait => "гены",
    }
}

/// Marker in front of each event line.
pub open spec fn event_marker(kind: ChronicleEventKind) -> &'static str {
    match kind {
        ChronicleEventKind::World => "•",
        ChronicleEventKind::Species => "+",
        ChronicleEventKind::Extinction => "×",
        ChronicleEventKind::Population => "~",
        ChronicleEventKind::Energy => "=",
        ChronicleEventKind::Trait => "*",
    }
}

/// Marker of an event line.
pub fn chronicle_event_marker(kind: ChronicleEventKind) -> (marker: &'static str)
    ensures
        marker == event_marker(kind),
{
    match kind {
        ChronicleEventKind::World => "•",
        ChronicleEventKind::Species => "+",
        ChronicleEventKind::Extinction => "×",
        ChronicleEventKind::Population => "~",
        ChronicleEventKind::Energy => "=",
        ChronicleEventKind::Trait => "*",
    }
}

/// Label of a graph mode button.
pub open spec fn graph_mode_label(mode: ChronicleGraphMode) -> &'static str {
    match mode {
        ChronicleGraphMode::Overall => "общий",
        ChronicleGraphMode::Cells => "клетки",
        ChronicleGraphMode::Food => "еда",
        ChronicleGraphMode::Viability => "жизнь",
        ChronicleGraphMode::Energy => "энергия",
    }
}

/// Label of a graph mode.
pub fn chronicle_graph_mode_label(mode: ChronicleGraphMode) -> (label: &'static str)
    ensures
        label == graph_mode_label(mode),
{
    match mode {
        ChronicleGraphMode::Overall => "общий",
        ChronicleGraphMode::Cells => "клетки",
        ChronicleGraphMode::Food => "еда",
        ChronicleGraphMode::Viability => "жизнь",
        ChronicleGraphMode::Energy => "энергия",
    }
}

/// Label of a summary figure.
pub open spec fn summary_label(metric: ChronicleSummaryMetric) -> &'static str {
    match metric {
        ChronicleSummaryMetric::Time => "время",
        ChronicleSummaryMetric::Cells => "клетки",
        ChronicleSummaryMetric::Species => "виды",
        ChronicleSummaryMetric::Food => "еда",
        ChronicleSummaryMetric::Viability => "жизнь",
        ChronicleSummaryMetric::Energy => "энергия",
        ChronicleSummaryMetric::Costs => "расходы",
        ChronicleSummaryMetric::Traits => "признаки",
        ChronicleSummaryMetric::Performance => "кадр",
    }
}

/// Label of a summary figure.
pub fn chronicle_summary_label(metric: ChronicleSummaryMetric) -> (label: &'static str)
    ensures
        label == summary_label(metric),
{
    match metric {
        ChronicleSummaryMetric::Time => "время",
        ChronicleSummaryMetric::Cells => "клетки",
        ChronicleSummaryMetric::Species => "виды",
        ChronicleSummaryMetric::Food => "еда",
        ChronicleSummaryMetric::Viability => "жизнь",
        ChronicleSummaryMetric::Energy => "энергия",
        ChronicleSummaryMetric::Costs => "расходы",
        ChronicleSummaryMetric::Traits => "признаки",
        ChronicleSummaryMetric::Performance => "кадр",
    }
}

/// Indices of the events to list, newest first, keeping the categories
/// that the filters let through.
pub open spec fn listed_events(kinds: Seq<ChronicleEventKind>, filters: u8) -> Seq<int>
    decreases kinds.len(),
{
    if kinds.len() == 0 {
        Seq::empty()
    } else {
        let rest = listed_events(kinds.drop_last(), filters);
        if filter_enabled(filters, kinds.last()) { seq![kinds.len() - 1] + rest } else { rest }
    }
}

/// Which events the event list shows, newest first, given the category of
/// each event (oldest first) and the filter state.
pub fn chronicle_listed_events(kinds: &Vec<ChronicleEventKind>, state: &ChronicleUiState) -> (listed: Vec<usize>)
    ensures
        listed@.map_values(|i: usize| i as int) == listed_events(kinds@, state.event_filters),
{
    let mut listed: Vec<usize> = Vec::new();
    let mut n: usize = kinds.len();
    let ghost all = kinds@;
    assert(all.take(n as int) =~= all);
    proof {
        lemma_listed_events_suffix(all, state.event_filters, n as int);
    }
    while n > 0
        invariant
            n <= kinds.len(),
            all == kinds@,
            listed@.map_values(|i: usize| i as int) + listed_events(all.take(n as int), state.event_filters)
                == listed_events(all, state.event_filters),
        decreases n,
    {
        let k = n - 1;
        let ghost prefix = all.take(n as int);
        assert(prefix.drop_last() =~= all.take(k as int));
        assert(prefix.last() == all[k as int]);
        let ghost before = listed@;
        if state.event_enabled(kinds[k]) {
            listed.push(k);
            assert(listed@.map_values(|i: usize| i as int) =~= before.map_values(|i: usize| i as int).push(k as int));
            assert(seq![k as int] + listed_events(all.take(k as int), state.event_filters)
                == listed_events(prefix, state.event_filters));
            assert(before.map_values(|i: usize| i as int).push(k as int) + listed_events(all.take(k as int), state.event_filters)
                =~= before.map_values(|i: usize| i as int) + (seq![k as int] + listed_events(all.take(k as int), state.event_filters)));
        }
        n = k;
    }
    assert(all.take(0) =~= Seq::<ChronicleEventKind>::empty());
    assert(listed@.map_values(|i: usize| i as int) + Seq::<int>::empty() =~= listed@.map_values(|i: usize| i as int));
    listed
}

proof fn lemma_listed_events_suffix(kinds: Seq<ChronicleEventKind>, filters: u8, n: int)
    ensures
        Seq::<int>::empty() + listed_events(kinds, filters) == listed_events(kinds, filters),
{
    assert(Seq::<int>::empty() + listed_events(kinds, filters) =~= listed_events(kinds, filters));
}

/// How many events of `kind` the chronicle holds.
pub open spec fn count_kind(kinds: Seq<ChronicleEventKind>, kind: ChronicleEventKind) -> int
    decreases kinds.len(),
{
    if kinds.len() == 0 {
        0
    } else {
        count_kind(kinds.drop_last(), kind) + if kinds.last() == kind { 1int } else { 0 }
    }
}

/// Number of events of one category, for its filter tooltip.
pub fn chronicle_count_events(kinds: &Vec<ChronicleEventKind>, kind: ChronicleEventKind) -> (count: usize)
    ensures
        count as int == count_kind(kinds@, kind),
{
    let mut count: usize = 0;
    let mut i: usize = 0;
    while i < kinds.len()
        invariant
            i <= kinds.len(),
            count <= i,
            count as int == count_kind(kinds@.take(i as int), kind),
        decreases kinds.len() - i,
    {
        assert(kinds@.take(i + 1).drop_last() =~= kinds@.take(i as int));
        if kinds[i] == kind {
            count = count + 1;
        }
        i = i + 1;
    }
    assert(kinds@.take(kinds.len() as int) =~= kinds@);
    count
}

/// Decimal digits of `n`, padded with a zero to at least two digits.
pub open spec fn two_digit_text(n: nat) -> Seq<char> {
    if n < 10 { seq!['0'] + decimal_text(n) } else { decimal_text(n) }
}

/// A duration of whole seconds as minutes and seconds, `MM:SS`.
pub open spec fn time_label(total_seconds: nat) -> Seq<char> {
    two_digit_text(total_seconds / 60) + seq![':'] + two_digit_text(total_seconds % 60)
}

fn append_two_digits(text: &mut String, n: u32)
    ensures
        final(text)@ == old(text)@ + two_digit_text(n as nat),
{
    if n < 10 {
        let zero = "0";
        proof {
            reveal_strlit("0");
        }
        text.append(zero);
    }
    append_decimal(text, n as u64);
    assert(text@ =~= old(text)@ + two_digit_text(n as nat));
}

/// Label of a duration of whole seconds, `MM:SS`; the time is rounded to
/// whole seconds by the caller.
pub fn chronicle_time_label(total_seconds: u32) -> (label: String)
    ensures
        label@ == time_label(total_seconds as nat),
{
    let mut label = String::new();
    append_two_digits(&mut label, total_seconds / 60);
    let colon = ":";
    proof {
        reveal_strlit(":");
    }
    label.append(colon);
    append_two_digits(&mut label, total_seconds % 60);
    assert(label@ =~= time_label(total_seconds as nat));
    label
}


/// The chronicle revision and graph mode the graph image was last drawn for.
#[derive(Clone, Copy, PartialEq, Eq, Structural, Debug)]
pub struct ChronicleGraphCache {
    pub revision: u64,
    pub mode: ChronicleGraphMode,
}

impl Default for ChronicleGraphCache {
    fn default() -> (cache: Self)
        ensures
            cache.revision == 0,
            cache.mode == ChronicleGraphMode::Overall,
    {
        ChronicleGraphCache { revision: 0, mode: ChronicleGraphMode::Overall }
    }
}

/// Whether the graph image must be drawn again: the chronicle changed or
/// another graph mode was chosen since it was drawn.
pub fn chronicle_graph_needs_redraw(cache: &ChronicleGraphCache, revision: u64, mode: ChronicleGraphMode) -> (redraw: bool)
    ensures
        redraw == (cache.revision != revision || cache.mode != mode),
{
    cache.revision != revision || cache.mode != mode
}

/// Records what the graph image now shows.
pub fn mark_chronicle_graph_drawn(cache: &mut ChronicleGraphCache, revision: u64, mode: ChronicleGraphMode)
    ensures
        *final(cache) == (ChronicleGraphCache { revision: revision, mode: mode }),
{
    cache.revision = revision;
    cache.mode = mode;
}

} // verus!
