//! The synthesizer's discrete state: oscillator shapes and the stages of an
//! ADSR envelope, with the rules by which an envelope moves between stages.
//! The levels themselves are audio samples and are computed by the app; it
//! hands this module what they did.
use vstd::prelude::*;

verus! {

/// The shape of an oscillator.
#[derive(Clone, Copy, Debug, PartialEq, Eq, Structural)]
pub enum Waveform {
    Sine,
    Saw,
    Square,
    Triangle,
    Noise,
}

/// The stage an ADSR envelope is in.
#[derive(Clone, Copy, Debug, PartialEq, Eq, Structural)]
pub enum AdsrState {
    Idle,
    Attack,
    Decay,
    Sustain,
    Release,
}

/// The stage after one sample, by the envelope rules: attack ends at the
/// peak and decays, decay ends at the sustain level and sustains, release
/// ends in silence and idles; idle and sustain stay. `reached` says whether
/// the level reached the end of the current stage's segment on this sample.
/// A level that is no longer a number (`finite` false) sends the envelope
/// to idle whatever the stage.
pub open spec fn stage_after(state: AdsrState, reached: bool, finite: bool) -> AdsrState {
    if !finite {
        AdsrState::Idle
    } else {
        match state {
            AdsrState::Attack => if reached { AdsrState::Decay } else { AdsrState::Attack },
            AdsrState::Decay => if reached { AdsrState::Sustain } else { AdsrState::Decay },
            AdsrState::Release => if reached { AdsrState::Idle } else { AdsrState::Release },
            other => other,
        }
    }
}

/// The envelope stage after one sample (see `stage_after`).
pub fn next_stage(state: AdsrState, reached: bool, finite: bool) -> (r: AdsrState)
    ensures
        r == stage_after(state, reached, finite),
{
    if !finite {
        return AdsrState::Idle;
    }
    match state {
        AdsrState::Attack => if reached {
            AdsrState::Decay
        } else {
            AdsrState::Attack
        },
        AdsrState::Decay => if reached {
            AdsrState::Sustain
        } else {
            AdsrState::Decay
        },
        AdsrState::Release => if reached {
            AdsrState::Idle
        } else {
            AdsrState::Release
        },
        other => other,
    }
}

/// Whether a voice falls silent after a sample: its envelope is idle, or it
/// sustains at a level that can no longer be heard (`quiet`).
pub fn voice_finished(state: AdsrState, quiet: bool) -> (r: bool)
    ensures
        r == (state == AdsrState::Idle || (state == AdsrState::Sustain && quiet)),
{
    match state {
        AdsrState::Idle => true,
        AdsrState::Sustain => quiet,
        _ => false,
    }
}

/// Once idle, an envelope stays idle until a note starts it again, whatever
/// its level does.
pub proof fn lemma_idle_stays_idle(reached: bool, finite: bool)
    ensures
        stage_after(AdsrState::Idle, reached, finite) == AdsrState::Idle,
{
}

/// An envelope moves through its stages in order: from attack it can only
/// reach decay, from decay only sustain, from release only idle (or idle
/// at once on a level that is no longer a number).
pub proof fn lemma_stages_in_order(state: AdsrState, reached: bool, finite: bool)
    ensures
        state == AdsrState::Attack ==> stage_after(state, reached, finite) == AdsrState::Attack
            || stage_after(state, reached, finite) == AdsrState::Decay
            || stage_after(state, reached, finite) == AdsrState::Idle,
        state == AdsrState::Decay ==> stage_after(state, reached, finite) == AdsrState::Decay
            || stage_after(state, reached, finite) == AdsrState::Sustain
            || stage_after(state, reached, finite) == AdsrState::Idle,
        state == AdsrState::Release ==> stage_after(state, reached, finite) == AdsrState::Release
            || stage_after(state, reached, finite) == AdsrState::Idle,
{
}

} // verus!
