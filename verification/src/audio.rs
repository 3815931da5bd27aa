use vstd::prelude::*;
use crate::chance::random_index;

verus! {

/// Most cell sounds started in one frame.
pub const MAX_CELL_SOUNDS_PER_FRAME: usize = 3;
/// Most cell sounds playing at once.
pub const MAX_ACTIVE_CELL_SOUNDS: usize = 8;

/// The effect played last, so that the next one can differ from it.
pub struct CellAudioState {
    pub last_effect: Option<usize>,
}

impl Default for CellAudioState {
    fn default() -> (state: Self)
        ensures
            state.last_effect.is_none(),
    {
        CellAudioState { last_effect: None }
    }
}

/// How many sounds may start this frame: the free playback slots, at most
/// the per-frame limit.
pub open spec fn sound_budget(active_sounds: int) -> int {
    let free = if active_sounds >= MAX_ACTIVE_CELL_SOUNDS { 0 } else { MAX_ACTIVE_CELL_SOUNDS - active_sounds };
    if free < MAX_CELL_SOUNDS_PER_FRAME { free } else { MAX_CELL_SOUNDS_PER_FRAME as int }
}

/// How many of `visible_events` sound events get played this frame.
pub open spec fn sounds_to_play(visible_events: int, active_sounds: int) -> int {
    let budget = sound_budget(active_sounds);
    if visible_events < budget { visible_events } else { budget }
}

/// Clears the last effect when a running game starts.
pub fn start_running_audio(state: &mut CellAudioState)
    ensures
        final(state).last_effect.is_none(),
{
    state.last_effect = None;
}

/// The effect picked from a random `draw` below `effect_count`: a draw
/// that repeats `last_effect` (with more than one effect to choose from) is
/// shifted by `offset`, a second random number in `1..effect_count`,
/// wrapping around.
pub open spec fn resolved_effect(effect_count: int, last_effect: Option<usize>, draw: int, offset: int) -> int {
    if effect_count > 1 && last_effect == Some(draw as usize) { (draw + offset) % effect_count } else { draw }
}

/// The effect for the random numbers `draw` and `offset`.
pub fn resolve_cell_effect(effect_count: usize, last_effect: Option<usize>, draw: usize, offset: usize) -> (effect: usize)
    requires
        draw < effect_count,
        effect_count > 1 ==> 1 <= offset < effect_count,
    ensures
        effect as int == resolved_effect(effect_count as int, last_effect, draw as int, offset as int),
        effect < effect_count,
        effect_count > 1 && last_effect.is_some() ==> effect != last_effect.unwrap(),
{
    if effect_count > 1 {
        match last_effect {
            Some(last) => {
                if last == draw {
                    proof {
                        let (d, o, n) = (draw as int, offset as int, effect_count as int);
                        if d + o >= n {
                            vstd::arithmetic::div_mod::lemma_small_mod((d + o - n) as nat, n as nat);
                            vstd::arithmetic::div_mod::lemma_mod_sub_multiples_vanish(d + o, n);
                        } else {
                            vstd::arithmetic::div_mod::lemma_small_mod((d + o) as nat, n as nat);
                        }
                    }
                    // (draw + offset) % effect_count, without overflow
                    return if draw >= effect_count - offset {
                        draw - (effect_count - offset)
                    } else {
                        draw + offset
                    };
                }
            },
            None => {},
        }
    }
    draw
}

/// Picks the next effect among `effect_count` effects at random; when there
/// is more than one effect it never repeats `last_effect`.
pub fn choose_cell_effect(effect_count: usize, last_effect: Option<usize>) -> (effect: usize)
    requires
        effect_count > 0,
    ensures
        effect < effect_count,
        effect_count > 1 && last_effect.is_some() ==> effect != last_effect.unwrap(),
{
    let draw = random_index(0, effect_count);
    let offset = if effect_count > 1 { random_index(1, effect_count) } else { 0 };
    resolve_cell_effect(effect_count, last_effect, draw, offset)
}

/// Plans the cell sounds of one frame: given the number of sound events in
/// view and of sounds still playing, returns the effects to start, in
/// order. It starts as many as the budget and the events allow, each a
/// valid effect different from the one before it.
pub fn play_cell_audio_events(visible_events: usize, active_sounds: usize, effect_count: usize, state: &mut CellAudioState) -> (effects: Vec<usize>)
    requires
        effect_count > 0,
    ensures
        effects.len() == sounds_to_play(visible_events as int, active_sounds as int),
        forall|i: int| 0 <= i < effects.len() ==> #[trigger] effects@[i] < effect_count,
        effect_count > 1 ==> forall|i: int| 0 < i < effects.len() ==> #[trigger] effects@[i] != effects@[i - 1],
        effect_count > 1 && effects.len() > 0 && old(state).last_effect.is_some() ==> effects@[0] != old(state).last_effect.unwrap(),
        effects.len() > 0 ==> final(state).last_effect == Some(effects@[effects.len() - 1]),
        effects.len() == 0 ==> final(state).last_effect == old(state).last_effect,
{
    let free = if active_sounds >= MAX_ACTIVE_CELL_SOUNDS { 0 } else { MAX_ACTIVE_CELL_SOUNDS - active_sounds };
    let budget = if free < MAX_CELL_SOUNDS_PER_FRAME { free } else { MAX_CELL_SOUNDS_PER_FRAME };
    let count = if visible_events < budget { visible_events } else { budget };
    let mut effects: Vec<usize> = Vec::new();
    let mut n: usize = 0;
    while n < count
        invariant
            n <= count,
            count <= MAX_CELL_SOUNDS_PER_FRAME,
            effect_count > 0,
            effects.len() == n,
            forall|i: int| 0 <= i < effects.len() ==> #[trigger] effects@[i] < effect_count,
            effect_count > 1 ==> forall|i: int| 0 < i < effects.len() ==> #[trigger] effects@[i] != effects@[i - 1],
            effect_count > 1 && effects.len() > 0 && old(state).last_effect.is_some() ==> effects@[0] != old(state).last_effect.unwrap(),
            effects.len() > 0 ==> state.last_effect == Some(effects@[effects.len() - 1]),
            effects.len() == 0 ==> state.last_effect == old(state).last_effect,
        decreases count - n,
    {
        let effect = choose_cell_effect(effect_count, state.last_effect);
        effects.push(effect);
        state.last_effect = Some(effect);
        n = n + 1;
    }
    effects
}

/// Two consecutive effects of a frame are never the same when there is
/// more than one effect to choose from, and the frame never starts more
/// sounds than the per-frame limit or the free playback slots.
pub proof fn lemma_sound_budget(visible_events: int, active_sounds: int)
    requires
        visible_events >= 0,
        active_sounds >= 0,
    ensures
        0 <= sounds_to_play(visible_events, active_sounds) <= MAX_CELL_SOUNDS_PER_FRAME,
        active_sounds + sounds_to_play(visible_events, active_sounds) <= MAX_ACTIVE_CELL_SOUNDS
            || sounds_to_play(visible_events, active_sounds) == 0,
        sounds_to_play(visible_events, active_sounds) <= visible_events,
{
}

} // verus!
