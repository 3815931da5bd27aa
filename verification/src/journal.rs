use vstd::prelude::*;
use crate::ledger::{entry_position, species_entry_index, SpeciesLedgerEntry, SpeciesLedgerStats};
use crate::ui_state::SpeciesLedgerUiState;
use crate::taxonomy::{
    genus_key, genus_name, shape_label, morph_class, species_genus_key, species_genus_name_for, species_related,
    species_shape_label_from_id, string_views, SpeciesNameBook,
};
use crate::text::{append_decimal, append_signed, decimal_text, signed_text};

verus! {

/// Living cells of all the ledger's species of genus `key`.
pub open spec fn genus_population(entries: Seq<SpeciesLedgerEntry>, key: u32) -> int
    decreases entries.len(),
{
    if entries.len() == 0 {
        0
    } else {
        genus_population(entries.drop_last(), key) + if genus_key(entries.last().species) == key {
            entries.last().alive as int
        } else {
            0
        }
    }
}

/// How many of the ledger's species are relatives of `species`: other
/// species of its genus.
pub open spec fn relatives_count(entries: Seq<SpeciesLedgerEntry>, species: u32) -> int
    decreases entries.len(),
{
    if entries.len() == 0 {
        0
    } else {
        relatives_count(entries.drop_last(), species) + if entries.last().species != species
            && genus_key(entries.last().species) == genus_key(species) {
            1int
        } else {
            0
        }
    }
}

/// The largest population among the ledger's species, or `fallback` when
/// the ledger is empty.
pub open spec fn largest_population(entries: Seq<SpeciesLedgerEntry>, fallback: usize) -> int
    decreases entries.len(),
{
    if entries.len() == 0 {
        fallback as int
    } else if entries.len() == 1 {
        entries[0].alive as int
    } else {
        let rest = largest_population(entries.drop_last(), fallback);
        if entries.last().alive as int > rest { entries.last().alive as int } else { rest }
    }
}

/// The largest population is the fallback for an empty ledger; otherwise no
/// species of the ledger has more living cells, and some species has exactly
/// that many.
pub proof fn lemma_largest_population(entries: Seq<SpeciesLedgerEntry>, fallback: usize)
    ensures
        entries.len() == 0 ==> largest_population(entries, fallback) == fallback as int,
        forall|i: int| 0 <= i < entries.len() ==> #[trigger] entries[i].alive as int <= largest_population(entries, fallback),
        entries.len() > 0 ==> exists|i: int| 0 <= i < entries.len()
            && #[trigger] entries[i].alive as int == largest_population(entries, fallback),
    decreases entries.len(),
{
    if entries.len() == 1 {
        assert(entries[0].alive as int == largest_population(entries, fallback));
    } else if entries.len() > 1 {
        let rest = entries.drop_last();
        lemma_largest_population(rest, fallback);
        let last = entries.len() - 1;
        assert forall|i: int| 0 <= i < entries.len() implies #[trigger] entries[i].alive as int <= largest_population(entries, fallback) by {
            if i < last {
                assert(rest[i] == entries[i]);
            }
        }
        if entries.last().alive as int > largest_population(rest, fallback) {
            assert(entries[last].alive as int == largest_population(entries, fallback));
        } else {
            let k = choose|k: int| 0 <= k < rest.len() && #[trigger] rest[k].alive as int == largest_population(rest, fallback);
            assert(rest[k] == entries[k]);
            assert(entries[k].alive as int == largest_population(entries, fallback));
        }
    }
}

/// The genus population counts every cell of the genus's species in the
/// ledger and nothing else: it is at least the living cells of each card of
/// the genus, and zero when no card is of the genus. The relatives of a
/// species are the other species of its genus in the ledger: never the
/// species itself, never one of another genus, and at least one whenever
/// such a card is there.
pub proof fn lemma_genus_figures(entries: Seq<SpeciesLedgerEntry>, species: u32)
    ensures
        forall|i: int| 0 <= i < entries.len() && genus_key(#[trigger] entries[i].species) == genus_key(species)
            ==> entries[i].alive as int <= genus_population(entries, genus_key(species)),
        (forall|i: int| 0 <= i < entries.len() ==> genus_key(#[trigger] entries[i].species) != genus_key(species))
            ==> genus_population(entries, genus_key(species)) == 0,
        0 <= relatives_count(entries, species) <= entries.len(),
        (forall|i: int| 0 <= i < entries.len() ==> #[trigger] entries[i].species == species
            || genus_key(entries[i].species) != genus_key(species)) ==> relatives_count(entries, species) == 0,
        (exists|i: int| 0 <= i < entries.len() && #[trigger] entries[i].species != species
            && genus_key(entries[i].species) == genus_key(species)) ==> relatives_count(entries, species) >= 1,
    decreases entries.len(),
{
    let key = genus_key(species);
    if entries.len() > 0 {
        let rest = entries.drop_last();
        let last = entries.len() - 1;
        lemma_genus_figures(rest, species);
        lemma_genus_population_nonneg(rest, key);
        assert forall|i: int| 0 <= i < entries.len() && genus_key(#[trigger] entries[i].species) == key
            implies entries[i].alive as int <= genus_population(entries, key) by {
            if i < last {
                assert(rest[i] == entries[i]);
            }
        }
        if forall|i: int| 0 <= i < entries.len() ==> genus_key(#[trigger] entries[i].species) != key {
            assert forall|i: int| 0 <= i < rest.len() implies genus_key(#[trigger] rest[i].species) != key by {
                assert(rest[i] == entries[i]);
            }
            assert(genus_key(entries[last].species) != key);
        }
        if forall|i: int| 0 <= i < entries.len() ==> #[trigger] entries[i].species == species
            || genus_key(entries[i].species) != key {
            assert forall|i: int| 0 <= i < rest.len() implies #[trigger] rest[i].species == species
                || genus_key(rest[i].species) != key by {
                assert(rest[i] == entries[i]);
            }
            assert(entries[last].species == species || genus_key(entries[last].species) != key);
        }
        if exists|i: int| 0 <= i < entries.len() && #[trigger] entries[i].species != species
            && genus_key(entries[i].species) == key {
            let i = choose|i: int| 0 <= i < entries.len() && #[trigger] entries[i].species != species
                && genus_key(entries[i].species) == key;
            if i < last {
                assert(rest[i] == entries[i]);
            }
        }
    }
}

/// Living cells of the genus of `species` over the ledger.
pub fn species_genus_population(stats: &SpeciesLedgerStats, species: u32) -> (total: usize)
    requires
        genus_population(stats.entries@, genus_key(species)) <= usize::MAX,
    ensures
        total as int == genus_population(stats.entries@, genus_key(species)),
{
    let key = species_genus_key(species);
    let mut total: usize = 0;
    let mut i: usize = 0;
    while i < stats.entries.len()
        invariant
            i <= stats.entries.len(),
            key == genus_key(species),
            genus_population(stats.entries@, key) <= usize::MAX,
            total as int == genus_population(stats.entries@.take(i as int), key),
        decreases stats.entries.len() - i,
    {
        assert(stats.entries@.take(i + 1).drop_last() =~= stats.entries@.take(i as int));
        proof {
            lemma_genus_population_prefix(stats.entries@, key, i + 1);
        }
        if species_genus_key(stats.entries[i].species) == key {
            total = total + stats.entries[i].alive;
        }
        i = i + 1;
    }
    assert(stats.entries@.take(stats.entries.len() as int) =~= stats.entries@);
    total
}

proof fn lemma_genus_population_prefix(entries: Seq<SpeciesLedgerEntry>, key: u32, n: int)
    requires
        0 <= n <= entries.len(),
    ensures
        0 <= genus_population(entries.take(n), key) <= genus_population(entries, key),
    decreases entries.len() - n,
{
    if n < entries.len() {
        lemma_genus_population_prefix(entries, key, n + 1);
        assert(entries.take(n + 1).drop_last() =~= entries.take(n));
        lemma_genus_population_nonneg(entries.take(n), key);
    } else {
        assert(entries.take(n) =~= entries);
        lemma_genus_population_nonneg(entries, key);
    }
}

proof fn lemma_genus_population_nonneg(entries: Seq<SpeciesLedgerEntry>, key: u32)
    ensures
        genus_population(entries, key) >= 0,
    decreases entries.len(),
{
    if entries.len() > 0 {
        lemma_genus_population_nonneg(entries.drop_last(), key);
    }
}

/// Number of relatives of `species` in the ledger.
pub fn species_relatives_count(stats: &SpeciesLedgerStats, species: u32) -> (count: usize)
    ensures
        count as int == relatives_count(stats.entries@, species),
{
    let mut count: usize = 0;
    let mut i: usize = 0;
    while i < stats.entries.len()
        invariant
            i <= stats.entries.len(),
            count <= i,
            count as int == relatives_count(stats.entries@.take(i as int), species),
        decreases stats.entries.len() - i,
    {
        assert(stats.entries@.take(i + 1).drop_last() =~= stats.entries@.take(i as int));
        if species_related(species, stats.entries[i].species) {
            count = count + 1;
        }
        i = i + 1;
    }
    assert(stats.entries@.take(stats.entries.len() as int) =~= stats.entries@);
    count
}

/// The largest population in the ledger, `fallback` when it is empty; the
/// journal scales its population bar by it.
pub fn species_largest_population(stats: &SpeciesLedgerStats, fallback: usize) -> (largest: usize)
    ensures
        largest as int == largest_population(stats.entries@, fallback),
        stats.entries.len() == 0 ==> largest == fallback,
        forall|i: int| 0 <= i < stats.entries.len() ==> #[trigger] stats.entries[i].alive <= largest,
        stats.entries.len() > 0 ==> exists|i: int| 0 <= i < stats.entries.len()
            && #[trigger] stats.entries[i].alive == largest,
{
    proof {
        lemma_largest_population(stats.entries@, fallback);
    }
    if stats.entries.len() == 0 {
        return fallback;
    }
    let mut largest = stats.entries[0].alive;
    let mut i: usize = 1;
    assert(stats.entries@.take(1).len() == 1);
    while i < stats.entries.len()
        invariant
            1 <= i <= stats.entries.len(),
            largest as int == largest_population(stats.entries@.take(i as int), fallback),
        decreases stats.entries.len() - i,
    {
        assert(stats.entries@.take(i + 1).drop_last() =~= stats.entries@.take(i as int));
        if stats.entries[i].alive > largest {
            largest = stats.entries[i].alive;
        }
        i = i + 1;
    }
    assert(stats.entries@.take(stats.entries.len() as int) =~= stats.entries@);
    largest
}

/// The population figure of the journal: the living cells and their change,
/// or the living cells alone when nothing changed.
pub open spec fn trend_text(alive: usize, delta: isize) -> Seq<char> {
    if delta == 0 {
        decimal_text(alive as nat) + " живых"@
    } else {
        decimal_text(alive as nat) + seq![' '] + signed_text(delta as int)
    }
}

/// Text of the population trend line of the species journal.
pub fn population_trend_text(alive: usize, delta: isize) -> (text: String)
    ensures
        text@ == trend_text(alive, delta),
{
    let mut text = String::new();
    append_decimal(&mut text, alive as u64);
    if delta == 0 {
        text.append(" живых");
    } else {
        text.append(" ");
        append_signed(&mut text, delta as i64);
        proof {
            reveal_strlit(" ");
        }
    }
    assert(text@ =~= trend_text(alive, delta));
    text
}

/// Value of the population row of the journal: living cells and signed change.
pub fn population_metric_text(alive: usize, delta: isize) -> (text: String)
    ensures
        text@ == decimal_text(alive as nat) + seq![' '] + signed_text(delta as int),
{
    let mut text = String::new();
    append_decimal(&mut text, alive as u64);
    text.append(" ");
    append_signed(&mut text, delta as i64);
    proof {
        reveal_strlit(" ");
    }
    assert(text@ =~= decimal_text(alive as nat) + seq![' '] + signed_text(delta as int));
    text
}

/// Subtitle of the species journal: body shape, genus name, living cells of
/// the genus and number of relatives.
pub open spec fn journal_subtitle(
    prefixes: Seq<Seq<char>>,
    suffixes: Seq<Seq<char>>,
    entries: Seq<SpeciesLedgerEntry>,
    species: u32,
) -> Seq<char> {
    shape_label(morph_class(species))@ + " · род "@ + genus_name(prefixes, suffixes, species) + " · в роде "@
        + decimal_text(genus_population(entries, genus_key(species)) as nat) + " · родственных "@
        + decimal_text(relatives_count(entries, species) as nat)
}

/// The subtitle line of the journal of `species`.
pub fn species_journal_subtitle(names: &SpeciesNameBook, stats: &SpeciesLedgerStats, species: u32) -> (text: String)
    requires
        names.inv(),
        genus_population(stats.entries@, genus_key(species)) <= usize::MAX,
    ensures
        text@ == journal_subtitle(string_views(names.prefixes@), string_views(names.suffixes@), stats.entries@, species),
{
    let mut text = String::from_str(species_shape_label_from_id(species));
    text.append(" · род ");
    let genus = species_genus_name_for(names, species);
    text.append(genus.as_str());
    text.append(" · в роде ");
    let population = species_genus_population(stats, species);
    proof {
        lemma_genus_population_nonneg(stats.entries@, genus_key(species));
    }
    append_decimal(&mut text, population as u64);
    text.append(" · родственных ");
    let relatives = species_relatives_count(stats, species);
    append_decimal(&mut text, relatives as u64);
    proof {
        lemma_relatives_count_nonneg(stats.entries@, species);
    }
    assert(text@ =~= journal_subtitle(string_views(names.prefixes@), string_views(names.suffixes@), stats.entries@, species));
    text
}

proof fn lemma_relatives_count_nonneg(entries: Seq<SpeciesLedgerEntry>, species: u32)
    ensures
        relatives_count(entries, species) >= 0,
    decreases entries.len(),
{
    if entries.len() > 0 {
        lemma_relatives_count_nonneg(entries.drop_last(), species);
    }
}

/// How a ledger row is drawn: the selected species, a relative of it (which
/// also shows the relation icon), or plain.
#[derive(Clone, Copy, PartialEq, Eq, Structural, Debug)]
pub enum LedgerRowLook {
    Selected,
    Related,
    Plain,
}

/// The look of the row of `species`: related rows need both species in the
/// ledger.
pub open spec fn row_look(selected: Option<u32>, entries: Seq<SpeciesLedgerEntry>, species: u32) -> LedgerRowLook {
    if selected == Some(species) {
        LedgerRowLook::Selected
    } else if selected.is_some() && entry_position(entries, selected.unwrap()).is_some()
        && entry_position(entries, species).is_some() && genus_key(species) == genus_key(selected.unwrap()) {
        LedgerRowLook::Related
    } else {
        LedgerRowLook::Plain
    }
}

/// The look of the ledger row of `species`.
pub fn species_ledger_row_look(state: &SpeciesLedgerUiState, stats: &SpeciesLedgerStats, species: u32) -> (look: LedgerRowLook)
    ensures
        look == row_look(state.selected_species, stats.entries@, species),
{
    match state.selected_species {
        Some(selected) => {
            if selected == species {
                LedgerRowLook::Selected
            } else if species_entry_index(stats, selected).is_some() && species_entry_index(stats, species).is_some()
                && species_related(selected, species) {
                LedgerRowLook::Related
            } else {
                LedgerRowLook::Plain
            }
        },
        None => LedgerRowLook::Plain,
    }
}

/// Living cells of `species` shown on its ledger row, 0 when it left the ledger.
pub fn species_ledger_row_count_text(stats: &SpeciesLedgerStats, species: u32) -> (text: String)
    ensures
        text@ == decimal_text(match entry_position(stats.entries@, species) {
            Some(p) => stats.entries@[p].alive as nat,
            None => 0nat,
        }),
{
    let alive: usize = match species_entry_index(stats, species) {
        Some(p) => stats.entries[p].alive,
        None => 0,
    };
    let mut text = String::new();
    append_decimal(&mut text, alive as u64);
    assert(text@ =~= decimal_text(alive as nat));
    text
}

} // verus!
