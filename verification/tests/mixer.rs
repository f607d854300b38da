use audiomultiverse::channel::Channel;
use audiomultiverse::ieee::{clamp, holds_nan, is_less};
use audiomultiverse::master::MasterSection;
use audiomultiverse::mixer::Mixer;
use audiomultiverse::routing::RoutingMatrix;
use audiomultiverse::scenes::{EqFilterType, RecallFilter};

fn bits(v: f32) -> u32 {
    v.to_bits()
}

fn num(b: u32) -> f32 {
    f32::from_bits(b)
}

#[test]
fn test_channel_defaults() {
    let ch = Channel::new(0, "Test".to_string());
    assert_eq!(num(ch.fader()), 0.75);
    assert!(!ch.is_muted());
    assert!(!ch.is_soloed());
    assert_eq!(num(ch.pan()), 0.0);
}

#[test]
fn test_master_creation() {
    let master = MasterSection::new();
    let state = master.get_state();

    assert!(!state.mute);
    assert!(!state.dim);
    assert!(state.limiter_enabled);
}

#[test]
fn test_fader() {
    let mut master = MasterSection::new();

    let state = master.set_fader(bits(0.5));
    assert!((num(state.fader) - 0.5).abs() < 0.001);
}

#[test]
fn test_mixer_creation() {
    let mixer = Mixer::new(32, 32);
    assert_eq!(mixer.input_count(), 32);
    assert_eq!(mixer.output_count(), 32);
}

#[test]
fn test_fader_control() {
    let mut mixer = Mixer::new(8, 2);

    let state = mixer.set_fader(0, bits(0.5)).unwrap();
    assert_eq!(num(state.fader), 0.5);
}

#[test]
fn test_mute_control() {
    let mut mixer = Mixer::new(8, 2);

    let state = mixer.set_mute(0, true).unwrap();
    assert!(state.mute);

    let state = mixer.set_mute(0, false).unwrap();
    assert!(!state.mute);
}

#[test]
fn test_matrix_creation() {
    let matrix = RoutingMatrix::new(32, 32);
    assert_eq!(matrix.input_count, 32);
    assert_eq!(matrix.output_count, 32);

    assert_eq!(matrix.get(0, 0).map(num), Some(1.0));
    assert_eq!(matrix.get(0, 1).map(num), Some(0.0));
}

#[test]
fn test_routing() {
    let mut matrix = RoutingMatrix::new(8, 2);

    assert!(matrix.set(4, 0, bits(0.5)));
    assert_eq!(matrix.get(4, 0).map(num), Some(0.5));

    assert!(!matrix.set(100, 0, bits(1.0)));
}

#[test]
fn test_inputs_for_output() {
    let mut matrix = RoutingMatrix::new(8, 2);
    matrix.clear();

    matrix.set(0, 0, bits(1.0));
    matrix.set(2, 0, bits(0.5));
    matrix.set(4, 0, bits(0.25));

    let inputs = matrix.inputs_for_output(0);
    assert_eq!(inputs.len(), 3);
}

#[test]
fn test_recall_filter() {
    let all = RecallFilter::all();
    assert!(all.faders);
    assert!(all.routing);

    let faders = RecallFilter::faders_only();
    assert!(faders.faders);
    assert!(!faders.routing);
}

#[test]
fn recall_filters() {
    let r = RecallFilter::routing_only();
    assert!(r.routing && !r.faders && !r.mutes && !r.names);
    let d = RecallFilter::default();
    assert!(!d.routing && !d.faders && d.channels.is_empty());
    assert!(d.includes(7));
    let mut some = RecallFilter::all();
    some.channels = vec![1, 3];
    assert!(some.includes(3));
    assert!(!some.includes(2));
    assert_eq!(EqFilterType::default(), EqFilterType::Peak);
}

#[test]
fn words_are_ordered_as_their_numbers() {
    let values = [
        f32::NEG_INFINITY, -100.0, -1.0, -0.5, -1e-30, -0.0, 0.0, 1e-30, 0.001, 0.75, 1.0, 1.25, 100.0,
        f32::INFINITY,
    ];
    for a in values {
        for b in values {
            assert_eq!(is_less(bits(a), bits(b)), a < b, "{} < {}", a, b);
        }
        assert!(!is_less(bits(a), bits(f32::NAN)));
        assert!(!is_less(bits(f32::NAN), bits(a)));
        assert!(!holds_nan(bits(a)));
    }
    assert!(holds_nan(bits(f32::NAN)));
    assert!(holds_nan(0xFFC0_0001));
    assert!(!holds_nan(0x7F80_0000));
}

#[test]
fn clamp_is_the_clamp_of_numbers() {
    for v in [-5.0f32, -1.0, -0.0, 0.0, 0.3, 1.25, 1.2500001, 7.0, f32::INFINITY, f32::NEG_INFINITY] {
        assert_eq!(num(clamp(bits(v), bits(0.0), bits(1.25))), v.clamp(0.0, 1.25));
        assert_eq!(num(clamp(bits(v), bits(-1.0), bits(1.0))), v.clamp(-1.0, 1.0));
        assert_eq!(num(clamp(bits(v), bits(-20.0), bits(20.0))), v.clamp(-20.0, 20.0));
    }
    // what is no number is taken to the lower bound
    assert_eq!(num(clamp(bits(f32::NAN), bits(-1.0), bits(1.0))), -1.0);
}

#[test]
fn set_fader_clamps_to_its_range() {
    let mut mixer = Mixer::new(4, 2);
    for (v, want) in [(2.0f32, 1.25f32), (-3.0, 0.0), (0.4, 0.4), (1.25, 1.25), (0.0, 0.0)] {
        let state = mixer.set_fader(1, bits(v)).unwrap();
        assert_eq!(num(state.fader), want);
        assert_eq!(num(mixer.get_channel(1).unwrap().fader), want);
    }
    assert_eq!(num(mixer.get_channel(0).unwrap().fader), 0.75);
}

#[test]
fn set_pan_clamps_to_its_range() {
    let mut mixer = Mixer::new(4, 2);
    for (v, want) in [(2.0f32, 1.0f32), (-3.0, -1.0), (0.4, 0.4), (-1.0, -1.0)] {
        let state = mixer.set_pan(2, bits(v)).unwrap();
        assert_eq!(num(state.pan), want);
        assert_eq!(num(mixer.get_channel(2).unwrap().pan), want);
    }
}

#[test]
fn unknown_channel_changes_nothing() {
    let mut mixer = Mixer::new(4, 2);
    assert!(mixer.set_fader(9999, bits(0.5)).is_none());
    assert!(mixer.set_mute(4, true).is_none());
    assert!(mixer.set_solo(4, true).is_none());
    assert!(mixer.set_pan(4, bits(0.5)).is_none());
    assert!(mixer.set_channel_name(4, "x".to_string()).is_none());
    assert!(mixer.get_channel(4).is_none());
    mixer.update_meter(4, bits(0.5), bits(0.0));
    let state = mixer.get_state();
    assert_eq!(state.channels.len(), 4);
    for (i, ch) in state.channels.iter().enumerate() {
        assert_eq!(ch.id, i as u32);
        assert_eq!(num(ch.fader), 0.75);
        assert!(!ch.mute && !ch.solo);
        assert_eq!(ch.name, format!("CH {}", i + 1));
    }
}

#[test]
fn mute_twice_is_mute_once() {
    let mut once = Mixer::new(4, 2);
    once.set_mute(2, true);
    let mut twice = Mixer::new(4, 2);
    twice.set_mute(2, true);
    twice.set_mute(2, true);
    let a = once.get_state();
    let b = twice.get_state();
    assert_eq!(a.channels.len(), b.channels.len());
    for (x, y) in a.channels.iter().zip(b.channels.iter()) {
        assert_eq!((x.id, &x.name, x.fader, x.mute, x.solo, x.pan), (y.id, &y.name, y.fader, y.mute, y.solo, y.pan));
    }
    assert_eq!(a.routing, b.routing);
    assert!(b.channels[2].mute);
}

#[test]
fn new_mixer_state() {
    let mixer = Mixer::new(12, 3);
    let state = mixer.get_state();
    assert_eq!(state.input_count, 12);
    assert_eq!(state.output_count, 3);
    assert_eq!(state.channels[0].name, "CH 1");
    assert_eq!(state.channels[9].name, "CH 10");
    assert_eq!(state.channels[11].name, "CH 12");
    assert_eq!(state.channels[0].color, "#3B82F6");
    assert_eq!(num(state.channels[0].gain), 0.0);
    assert_eq!(state.routing.len(), 12);
    for (i, row) in state.routing.iter().enumerate() {
        assert_eq!(row.len(), 3);
        for (j, &g) in row.iter().enumerate() {
            assert_eq!(num(g), if i == j { 1.0 } else { 0.0 });
        }
    }
    assert_eq!(mixer.get_meters(), vec![0u32; 12]);
    assert_eq!(mixer.get_all_channels().len(), 12);
    let empty = Mixer::new(0, 0);
    assert!(empty.get_state().channels.is_empty());
}

#[test]
fn names_and_solo() {
    let mut mixer = Mixer::new(4, 2);
    let s = mixer.set_channel_name(3, "Kick".to_string()).unwrap();
    assert_eq!(s.name, "Kick");
    assert_eq!(s.id, 3);
    assert!(mixer.set_solo(1, true).unwrap().solo);
    assert!(mixer.set_solo(1, true).unwrap().solo);
    assert!(!mixer.set_solo(1, false).unwrap().solo);
    assert!(!mixer.get_channel(1).unwrap().solo);
}

#[test]
fn mixer_routing() {
    let mut mixer = Mixer::new(4, 2);
    assert!(mixer.set_routing(3, 1, bits(0.5)));
    assert!(mixer.set_routing(0, 0, bits(7.0)));
    assert!(mixer.set_routing(1, 1, bits(-7.0)));
    assert!(!mixer.set_routing(4, 0, bits(0.5)));
    assert!(!mixer.set_routing(0, 2, bits(0.5)));
    let r = mixer.get_routing();
    assert_eq!(num(r[3][1]), 0.5);
    assert_eq!(num(r[0][0]), 1.0);
    assert_eq!(num(r[1][1]), 0.0);
    assert_eq!(num(r[2][0]), 0.0);
}

#[test]
fn meter_attack_release_and_hold() {
    let mut ch = Channel::new(0, "m".to_string());
    // a higher peak is taken at once
    ch.update_meter(bits(0.8), bits(0.0));
    assert_eq!(num(ch.get_meter()), 0.8);
    assert_eq!(num(ch.get_peak_hold()), 0.8);
    // a lower one lets the reading fall to what the caller worked out
    ch.update_meter(bits(0.3), bits(0.8 * 0.95));
    assert_eq!(num(ch.get_meter()), 0.8 * 0.95);
    assert_eq!(num(ch.get_peak_hold()), 0.8);
    ch.update_meter(bits(0.9), bits(0.0));
    assert_eq!(num(ch.get_meter()), 0.9);
    assert_eq!(num(ch.get_peak_hold()), 0.9);
    let mut mixer = Mixer::new(2, 2);
    mixer.update_meter(1, bits(0.5), bits(0.0));
    assert_eq!(mixer.get_meters(), vec![bits(0.0), bits(0.5)]);
}

#[test]
fn channel_setters() {
    let mut ch = Channel::new(5, "Snare".to_string());
    assert_eq!(ch.id(), 5);
    ch.set_gain(bits(30.0));
    assert_eq!(num(ch.gain()), 20.0);
    ch.set_gain(bits(-30.0));
    assert_eq!(num(ch.gain()), -20.0);
    ch.set_phase_invert(true);
    assert!(ch.is_phase_inverted());
    ch.set_color("#FF0000".to_string());
    ch.set_name("Snare Top".to_string());
    ch.set_fader(bits(1.0));
    ch.set_pan(bits(-0.25));
    ch.set_mute(true);
    ch.set_solo(true);
    let s = ch.state();
    assert_eq!(s.color, "#FF0000");
    assert_eq!(s.name, "Snare Top");
    assert_eq!((num(s.fader), num(s.pan), s.mute, s.solo, s.phase_invert), (1.0, -0.25, true, true, true));
}

#[test]
fn routing_matrix_operations() {
    let mut m = RoutingMatrix::new(3, 4);
    assert_eq!(m.get(3, 0), None);
    assert_eq!(m.get(0, 4), None);
    assert_eq!(m.outputs_for_input(1), vec![(1, bits(1.0))]);
    assert_eq!(m.inputs_for_output(3), vec![]);
    assert_eq!(m.inputs_for_output(9), vec![]);
    assert_eq!(m.outputs_for_input(9), vec![]);
    m.set(0, 3, bits(0.25));
    m.set(2, 3, bits(2.0));
    m.set(1, 3, bits(-1.0));
    assert_eq!(m.inputs_for_output(3), vec![(0, bits(0.25)), (2, bits(1.0))]);
    assert_eq!(m.snapshot()[1][3], bits(0.0));
    m.clear();
    assert_eq!(m.snapshot(), vec![vec![0u32; 4]; 3]);
    m.set_stereo_pair(1, 2);
    assert_eq!(num(m.get(1, 2).unwrap()), 1.0);
    assert_eq!(num(m.get(2, 3).unwrap()), 1.0);
    m.clear();
    m.set_stereo_pair(2, 0);
    m.set_stereo_pair(0, 3);
    m.set_stereo_pair(usize::MAX, 0);
    assert_eq!(m.snapshot(), vec![vec![0u32; 4]; 3]);
    m.set_unity();
    assert_eq!(num(m.get(2, 2).unwrap()), 1.0);
    assert_eq!(num(m.get(2, 3).unwrap()), 0.0);
}

#[test]
fn master_settings_are_held_to_their_ranges() {
    let mut m = MasterSection::new();
    let s = m.get_state();
    assert_eq!(num(s.fader), 0.75);
    assert_eq!(num(s.dim_level), -20.0);
    assert_eq!(num(s.limiter_threshold), -0.5);
    assert_eq!(num(s.limiter_ratio), 20.0);
    assert_eq!(num(s.oscillator_freq), 1000.0);
    assert_eq!(num(s.oscillator_level), -20.0);
    assert_eq!(num(s.peak_left), -60.0);
    assert_eq!(num(s.peak_right), -60.0);
    assert_eq!(num(s.limiter_gr), 0.0);
    assert!(!s.mono && !s.talkback && !s.oscillator);

    assert_eq!(num(m.set_fader(bits(2.0)).fader), 1.0);
    assert_eq!(num(m.set_fader(bits(-1.0)).fader), 0.0);
    assert_eq!(num(m.set_dim_level(bits(-50.0)).dim_level), -40.0);
    assert_eq!(num(m.set_dim_level(bits(3.0)).dim_level), 0.0);
    assert_eq!(num(m.set_limiter_threshold(bits(-6.0)).limiter_threshold), -6.0);
    assert_eq!(num(m.set_limiter_threshold(bits(-60.0)).limiter_threshold), -20.0);
    assert_eq!(num(m.set_limiter_ratio(bits(0.5)).limiter_ratio), 1.0);
    assert_eq!(num(m.set_limiter_ratio(bits(500.0)).limiter_ratio), 100.0);
    assert_eq!(num(m.set_oscillator_freq(bits(5.0)).oscillator_freq), 20.0);
    assert_eq!(num(m.set_oscillator_freq(bits(44100.0)).oscillator_freq), 20000.0);
    assert_eq!(num(m.set_oscillator_level(bits(-100.0)).oscillator_level), -60.0);
    assert_eq!(num(m.set_oscillator_level(bits(6.0)).oscillator_level), 0.0);
    assert!(m.set_mute(true).mute);
    assert!(m.set_dim(true).dim);
    assert!(m.set_mono(true).mono);
    assert!(m.set_talkback(true).talkback);
    assert!(m.set_oscillator(true).oscillator);
    assert!(!m.set_limiter_enabled(false).limiter_enabled);
    m.update_peaks(bits(0.5), bits(0.25));
    m.update_limiter_gr(bits(-3.0));
    let s = m.get_state();
    assert_eq!((num(s.peak_left), num(s.peak_right), num(s.limiter_gr)), (0.5, 0.25, -3.0));
    assert_eq!(MasterSection::default().get_state(), MasterSection::new().get_state());
}
