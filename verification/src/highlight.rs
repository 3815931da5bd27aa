use vstd::prelude::*;
use crate::ledger::{entry_position, species_entry_index, SpeciesLedgerStats};
use crate::ui_state::{desired_highlight_species, SpeciesLedgerUiState};

verus! {

/// The species whose area is outlined in the world, and the ledger revision
/// the outline was drawn for.
#[derive(Clone, Copy, PartialEq, Eq, Structural, Debug)]
pub struct SpeciesAreaHighlightState {
    pub species: Option<u32>,
    pub rendered_revision: u64,
}

impl SpeciesAreaHighlightState {
    pub open spec fn cleared() -> SpeciesAreaHighlightState {
        SpeciesAreaHighlightState { species: None, rendered_revision: 0 }
    }
}

impl Default for SpeciesAreaHighlightState {
    fn default() -> (state: Self)
        ensures
            state == SpeciesAreaHighlightState::cleared(),
    {
        SpeciesAreaHighlightState { species: None, rendered_revision: 0 }
    }
}

/// What to do with the area outline this frame.
#[derive(Clone, Copy, PartialEq, Eq, Structural, Debug)]
pub enum AreaHighlightAction {
    /// Leave the outline as it is.
    Keep,
    /// Remove any outline.
    Clear,
    /// Remove any outline and draw the area of this species.
    Redraw(u32),
}

/// The species whose area should be outlined: the requested one, while the
/// journal is open on it.
pub open spec fn wanted_area_species(ledger: SpeciesLedgerUiState, requested: Option<u32>) -> Option<u32> {
    if ledger.open && ledger.journal_open && requested.is_some() && ledger.selected_species == requested {
        requested
    } else {
        None
    }
}

/// The outline state and action after one frame. `drawn` says whether an
/// outline is on screen. Without a wanted species, or when that species
/// left the ledger, the outline is cleared; it is redrawn when the ledger
/// revision moved or nothing is drawn; otherwise it stays.
pub open spec fn area_highlight_step(
    h: SpeciesAreaHighlightState,
    ledger: SpeciesLedgerUiState,
    entries_have_species: bool,
    revision: u64,
    drawn: bool,
) -> (SpeciesAreaHighlightState, AreaHighlightAction) {
    match wanted_area_species(ledger, h.species) {
        None => if h.species.is_some() || drawn {
            (SpeciesAreaHighlightState::cleared(), AreaHighlightAction::Clear)
        } else {
            (h, AreaHighlightAction::Keep)
        },
        Some(species) => if !entries_have_species {
            (SpeciesAreaHighlightState::cleared(), AreaHighlightAction::Clear)
        } else if h.rendered_revision == revision && drawn {
            (h, AreaHighlightAction::Keep)
        } else {
            (SpeciesAreaHighlightState { rendered_revision: revision, ..h }, AreaHighlightAction::Redraw(species))
        },
    }
}

/// Decides whether the outline of the selected species' area is kept,
/// cleared or redrawn, and records what is drawn.
pub fn update_species_area_highlight(
    highlight: &mut SpeciesAreaHighlightState,
    ledger: &SpeciesLedgerUiState,
    stats: &SpeciesLedgerStats,
    drawn: bool,
) -> (action: AreaHighlightAction)
    ensures
        ({
            let wanted = wanted_area_species(*ledger, old(highlight).species);
            let listed = wanted.is_some() && entry_position(stats.entries@, wanted.unwrap()).is_some();
            (*final(highlight), action) == area_highlight_step(*old(highlight), *ledger, listed, stats.revision, drawn)
        }),
        ({
            let h = *old(highlight);
            let shown = ledger.open && ledger.journal_open && h.species is Some && ledger.selected_species == h.species;
            shown && entry_position(stats.entries@, h.species->0).is_some()
                && (h.rendered_revision != stats.revision || !drawn) ==> {
                &&& action == AreaHighlightAction::Redraw(h.species->0)
                &&& final(highlight).rendered_revision == stats.revision
                &&& final(highlight).species == h.species
            }
        }),
{
    proof {
        let wanted = wanted_area_species(*ledger, old(highlight).species);
        let listed = wanted.is_some() && entry_position(stats.entries@, wanted.unwrap()).is_some();
        lemma_highlight_tracks_revision(*old(highlight), *ledger, listed, stats.revision, drawn);
    }
    let wanted = desired_highlight_species(ledger, highlight.species);
    match wanted {
        None => {
            if highlight.species.is_some() || drawn {
                *highlight = SpeciesAreaHighlightState::default();
                AreaHighlightAction::Clear
            } else {
                AreaHighlightAction::Keep
            }
        },
        Some(species) => {
            if species_entry_index(stats, species).is_none() {
                *highlight = SpeciesAreaHighlightState::default();
                AreaHighlightAction::Clear
            } else if highlight.rendered_revision == stats.revision && drawn {
                AreaHighlightAction::Keep
            } else {
                highlight.rendered_revision = stats.revision;
                AreaHighlightAction::Redraw(species)
            }
        },
    }
}

/// A press on the area row of the species journal: when the journal shows a
/// species of the ledger, its area is requested (to be drawn afresh) and the
/// species is returned for the camera to focus on.
pub fn press_species_area_row(
    highlight: &mut SpeciesAreaHighlightState,
    ledger: &SpeciesLedgerUiState,
    stats: &SpeciesLedgerStats,
) -> (focus: Option<u32>)
    ensures
        match ledger.selected_species {
            Some(s) => if entry_position(stats.entries@, s).is_some() {
                focus == Some(s) && *final(highlight) == (SpeciesAreaHighlightState { species: Some(s), rendered_revision: 0 })
            } else {
                focus.is_none() && *final(highlight) == *old(highlight)
            },
            None => focus.is_none() && *final(highlight) == *old(highlight),
        },
{
    match ledger.selected_species {
        Some(species) => {
            if species_entry_index(stats, species).is_some() {
                highlight.species = Some(species);
                highlight.rendered_revision = 0;
                Some(species)
            } else {
                None
            }
        },
        None => None,
    }
}

/// An outline is only ever kept or drawn for the species the open journal
/// shows, and after any frame without such a species nothing stays drawn.
pub proof fn lemma_highlight_follows_journal(
    h: SpeciesAreaHighlightState,
    ledger: SpeciesLedgerUiState,
    listed: bool,
    revision: u64,
    drawn: bool,
)
    ensures
        ({
            let (after, action) = area_highlight_step(h, ledger, listed, revision, drawn);
            &&& action matches AreaHighlightAction::Redraw(s) ==> ledger.open && ledger.journal_open
                && ledger.selected_species == Some(s) && listed && after.rendered_revision == revision
            &&& wanted_area_species(ledger, h.species).is_none() ==> !(action is Redraw)
                && (action is Keep ==> !drawn && after.species.is_none())
        }),
{
}

/// While the open journal shows a species of the ledger and its area is the
/// one requested, the outline is redrawn exactly when the ledger revision
/// moved since it was drawn or nothing is on screen, and the new revision is
/// recorded; otherwise it is kept as it is. A requested species that left the
/// ledger has its outline cleared.
pub proof fn lemma_highlight_tracks_revision(
    h: SpeciesAreaHighlightState,
    ledger: SpeciesLedgerUiState,
    listed: bool,
    revision: u64,
    drawn: bool,
)
    ensures
        ({
            let (after, action) = area_highlight_step(h, ledger, listed, revision, drawn);
            let shown = ledger.open && ledger.journal_open && h.species is Some && ledger.selected_species == h.species;
            &&& shown && listed && (h.rendered_revision != revision || !drawn) ==> {
                &&& action == AreaHighlightAction::Redraw(h.species->0)
                &&& after.rendered_revision == revision
                &&& after.species == h.species
            }
            &&& shown && listed && h.rendered_revision == revision && drawn ==> {
                &&& action == AreaHighlightAction::Keep
                &&& after == h
            }
            &&& shown && !listed ==> {
                &&& action == AreaHighlightAction::Clear
                &&& after == SpeciesAreaHighlightState::cleared()
            }
        }),
{
}

} // verus!
