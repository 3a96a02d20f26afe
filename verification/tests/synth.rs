use shed_power::synth::{next_stage, voice_finished, AdsrState};

#[test]
fn envelope_walks_attack_decay_sustain() {
    let mut stage = AdsrState::Attack;
    stage = next_stage(stage, false, true);
    assert_eq!(stage, AdsrState::Attack);
    stage = next_stage(stage, true, true);
    assert_eq!(stage, AdsrState::Decay);
    stage = next_stage(stage, false, true);
    assert_eq!(stage, AdsrState::Decay);
    stage = next_stage(stage, true, true);
    assert_eq!(stage, AdsrState::Sustain);
    assert_eq!(next_stage(stage, true, true), AdsrState::Sustain);
}

#[test]
fn release_ends_idle_and_idle_stays() {
    assert_eq!(next_stage(AdsrState::Release, false, true), AdsrState::Release);
    assert_eq!(next_stage(AdsrState::Release, true, true), AdsrState::Idle);
    assert_eq!(next_stage(AdsrState::Idle, true, true), AdsrState::Idle);
    assert_eq!(next_stage(AdsrState::Idle, false, false), AdsrState::Idle);
}

#[test]
fn level_that_is_not_a_number_idles_any_stage() {
    for stage in [
        AdsrState::Attack,
        AdsrState::Decay,
        AdsrState::Sustain,
        AdsrState::Release,
    ] {
        assert_eq!(next_stage(stage, false, false), AdsrState::Idle);
    }
}

#[test]
fn voice_finishes_when_idle_or_quietly_sustaining() {
    assert!(voice_finished(AdsrState::Idle, false));
    assert!(voice_finished(AdsrState::Sustain, true));
    assert!(!voice_finished(AdsrState::Sustain, false));
    assert!(!voice_finished(AdsrState::Release, true));
    assert!(!voice_finished(AdsrState::Attack, true));
}
