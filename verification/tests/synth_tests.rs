use pistolhot::envelope::{NoteState, Params};
use pistolhot::fx::FX_SCALE;
use pistolhot::synth::{MidiEvent, Synth};

fn max_abs(buf: &[i64]) -> i64 {
    buf.iter().map(|x| x.abs()).max().unwrap_or(0)
}

#[test]
fn synth_silence() {
    let mut synth = Synth::new();
    let mut data = vec![0i64; 512];
    synth.render(48000, 2, &vec![], &mut data);
    assert_eq!(vec![0i64; 512], data);
}

#[test]
fn lib_silence() {
    let mut synth = Synth::new();
    let mut data = vec![0i64; 512];
    synth.render(48000, 2, &vec![], &mut data);
    assert_eq!(vec![0i64; 512], data);
}

#[test]
fn silence_other_rates_and_channels() {
    let mut synth = Synth::new();
    let mut data = vec![0i64; 3 * 100];
    synth.render(44100, 3, &vec![], &mut data);
    assert_eq!(vec![0i64; 300], data);
    let mut more = vec![0i64; 64];
    synth.render(96000, 1, &vec![], &mut more);
    assert_eq!(vec![0i64; 64], more);
}

#[test]
fn note_on_produces_bounded_sound() {
    let mut synth = Synth::new();
    let mut data = vec![0i64; 1024];
    let events = vec![MidiEvent::NoteOn { note: 69, velocity: 127 }];
    synth.render(44100, 2, &events, &mut data);
    // non-silent
    assert!(data.iter().any(|&x| x != 0));
    // every sample finite and clamped into [-1, 1]
    assert!(data.iter().all(|&x| -FX_SCALE <= x && x <= FX_SCALE));
    // every frame carries the same value on both channels
    for f in 0..512 {
        assert_eq!(data[2 * f], data[2 * f + 1]);
    }
}

#[test]
fn note_on_exact_waveform_prefix() {
    let mut synth = Synth::new();
    let mut data = vec![0i64; 512];
    let events = vec![MidiEvent::NoteOn { note: 69, velocity: 127 }];
    synth.render(44100, 1, &events, &mut data);
    // the filter delays onset by a couple of samples, then sound appears
    assert_eq!(&data[..8], &[0, 0, 0, 1, 6, 25, 64, 127]);
    assert_eq!(data[100], -41594);
    assert_eq!(data[511], 71117);
}

#[test]
fn release_decays_toward_silence() {
    let mut synth = Synth::new();
    let mut held = vec![0i64; 1024];
    synth.render(44100, 2, &vec![MidiEvent::NoteOn { note: 69, velocity: 127 }], &mut held);
    assert!(max_abs(&held) > 0);
    let mut chunk_maxes = Vec::new();
    let mut first = vec![0i64; 1024];
    synth.render(44100, 2, &vec![MidiEvent::NoteOff { note: 69 }], &mut first);
    chunk_maxes.push(max_abs(&first));
    for _ in 0..8 {
        let mut buf = vec![0i64; 1024];
        synth.render(44100, 2, &vec![], &mut buf);
        chunk_maxes.push(max_abs(&buf));
    }
    // amplitude trends monotonically toward zero over the release
    for w in chunk_maxes.windows(2) {
        assert!(w[1] <= w[0]);
    }
    assert!(*chunk_maxes.last().unwrap() < chunk_maxes[0] / 10);
}

#[test]
fn immediate_release_targets_zero_energy() {
    let mut synth = Synth::new();
    let mut empty = vec![0i64; 0];
    let events = vec![
        MidiEvent::NoteOn { note: 69, velocity: 127 },
        MidiEvent::NoteOff { note: 69 },
    ];
    synth.render(44100, 2, &events, &mut empty);
    let ev = synth.note_event.unwrap();
    assert_eq!(ev.state, NoteState::Released);
    // target energy zero, response 1/(release*10000 + 1) with release = 0.1
    let (energy, response) = synth.calculate_energy();
    assert_eq!(energy, 0);
    assert_eq!(response, 1047);
}

#[test]
fn zero_length_render_is_a_no_op() {
    let mut with_empty = Synth::new();
    let mut direct = Synth::new();
    let mut none = vec![0i64; 0];
    let on = vec![MidiEvent::NoteOn { note: 69, velocity: 127 }];
    with_empty.render(44100, 2, &on, &mut none);
    assert_eq!(none.len(), 0);
    let mut out1 = vec![0i64; 1024];
    with_empty.render(44100, 2, &vec![], &mut out1);
    let mut out2 = vec![0i64; 1024];
    direct.render(44100, 2, &on, &mut out2);
    assert_eq!(out1, out2);
}

#[test]
fn trailing_partial_frame_is_untouched() {
    let mut synth = Synth::new();
    let mut data = vec![7i64; 5];
    synth.render(44100, 2, &vec![MidiEvent::NoteOn { note: 69, velocity: 127 }], &mut data);
    // two whole frames are written, the trailing sample is left alone
    assert_eq!(data[4], 7);
}

#[test]
fn envelope_phase_selection() {
    let mut synth = Synth::new();
    let mut empty = vec![0i64; 0];
    // decay_delay stays at its default half second
    synth.render(44100, 2, &vec![MidiEvent::NoteOn { note: 69, velocity: 127 }], &mut empty);
    let ev = synth.note_event.unwrap();
    // 0.4 s elapsed: attack branch, full desired potential
    synth.note_event = Some(pistolhot::envelope::NoteEvent {
        state: NoteState::Pressed(17640),
        ..ev
    });
    let (e1, t1) = synth.calculate_energy();
    assert_eq!(e1, 132022980000);
    assert_eq!(t1, 1047);
    // 0.6 s elapsed: decay branch, the sustain fraction (one half)
    synth.note_event = Some(pistolhot::envelope::NoteEvent {
        state: NoteState::Pressed(26460),
        ..ev
    });
    let (e2, t2) = synth.calculate_energy();
    assert_eq!(e2, 66011490000);
    assert_eq!(t2, 1047);
    // released: always the release branch, regardless of prior elapsed time
    synth.note_event = Some(pistolhot::envelope::NoteEvent {
        state: NoteState::Released,
        ..ev
    });
    let (e3, t3) = synth.calculate_energy();
    assert_eq!(e3, 0);
    assert_eq!(t3, 1047);
    // no note at all: the distinct 1 - release response
    synth.note_event = None;
    let (e4, t4) = synth.calculate_energy();
    assert_eq!(e4, 0);
    assert_eq!(t4, FX_SCALE - 104858);
}

#[test]
fn note_off_must_match_held_note() {
    let mut synth = Synth::new();
    let mut empty = vec![0i64; 0];
    let events = vec![
        MidiEvent::NoteOn { note: 69, velocity: 127 },
        MidiEvent::NoteOff { note: 70 },
    ];
    synth.render(44100, 2, &events, &mut empty);
    let ev = synth.note_event.unwrap();
    assert_eq!(ev.state, NoteState::Pressed(0));
}

#[test]
fn mod_wheel_maps_into_chaoticity_range() {
    let mut synth = Synth::new();
    let mut empty = vec![0i64; 0];
    synth.render(44100, 2, &vec![MidiEvent::ControlChange { controller: 1, value: 127 }], &mut empty);
    assert_eq!(synth.get_params().chaoticity, 1048576);
    synth.render(44100, 2, &vec![MidiEvent::ControlChange { controller: 1, value: 0 }], &mut empty);
    assert_eq!(synth.get_params().chaoticity, 104858);
    // other controllers are ignored
    synth.render(44100, 2, &vec![MidiEvent::ControlChange { controller: 7, value: 64 }], &mut empty);
    assert_eq!(synth.get_params().chaoticity, 104858);
}

#[test]
fn params_clamp_on_read() {
    let mut p = Params::default();
    p.attack = -5;
    assert_eq!(p.get_attack(), 0);
    p.attack = 2 * FX_SCALE;
    assert_eq!(p.get_attack(), FX_SCALE);
    p.chaoticity = 0;
    assert_eq!(p.get_chaoticity(), 104858);
    p.decay_delay = 100 * FX_SCALE;
    assert_eq!(p.get_decay_delay(), 10 * FX_SCALE);
    p.release = FX_SCALE / 2;
    assert_eq!(p.get_release(), FX_SCALE / 2);
}

#[test]
fn fresh_synth_initial_state() {
    let synth = Synth::new();
    assert!(synth.note_event.is_none());
    assert_eq!(synth.sample_rate, 44100);
    assert_eq!(synth.center_length, FX_SCALE);
    let p = synth.simulator.pendulum;
    assert_eq!(p.g, 981000 * FX_SCALE);
    assert_eq!((p.mass0, p.mass1), (FX_SCALE, FX_SCALE));
    assert_eq!((p.theta0, p.theta1, p.p0, p.p1), (0, 0, 0, 0));
    assert_eq!(synth.simulator.step_size, 23);
    assert_eq!(synth.simulator.time_error, 0);
    // the filter key of zero forces a coefficient rebuild on the first render
    assert_eq!(synth.lowpass.sample_rate, 0);
    let params = synth.get_params();
    assert_eq!(params.chaoticity, FX_SCALE / 2);
    assert_eq!(params.attack, 104858);
    assert_eq!(params.decay_delay, FX_SCALE / 2);
    assert_eq!(params.decay, 104858);
    assert_eq!(params.sustain, FX_SCALE / 2);
    assert_eq!(params.release, 104858);
}

#[test]
fn output_does_not_depend_on_buffer_slicing() {
    let mut halves = Synth::new();
    let mut whole = Synth::new();
    let on = vec![MidiEvent::NoteOn { note: 69, velocity: 127 }];
    let mut a = vec![0i64; 512];
    halves.render(44100, 2, &on, &mut a);
    let mut b = vec![0i64; 512];
    halves.render(44100, 2, &vec![], &mut b);
    let mut c = vec![0i64; 1024];
    whole.render(44100, 2, &on, &mut c);
    a.extend_from_slice(&b);
    assert_eq!(a, c);
}

#[test]
fn note_state_counts_only_while_pressed() {
    let mut s = NoteState::Pressed(5);
    s.update(3);
    assert_eq!(s, NoteState::Pressed(8));
    let mut r = NoteState::Released;
    r.update(3);
    assert_eq!(r, NoteState::Released);
    let mut near = NoteState::Pressed(u32::MAX - 1);
    near.update(10);
    assert_eq!(near, NoteState::Pressed(u32::MAX));
}
