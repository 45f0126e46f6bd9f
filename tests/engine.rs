use mood_mixer::arith::floor_div;
use mood_mixer::mapping::ParameterMapping;
use mood_mixer::mix_graph::{build_mix_graph, is_acyclic, Bus, MixError, MixGraph, Output};
use mood_mixer::modulator::{Modulator, FULL_SCALE};
use mood_mixer::mood::{Mood, Param};
use mood_mixer::scene::{
    lead_cutoff_mapping, parse_key, scene_mix_graph, scene_stems, volume_param, Command,
    InputKey, SceneController, LEAD_BUS, RHYTHM_BUS, TRANSITION_MS,
};
use mood_mixer::stem::{StemError, StemPlayer, StemSettings};

const ALL: [Mood; 4] = [Mood::Basic, Mood::Electro, Mood::Funkot, Mood::Koplo];

#[test]
fn floor_div_rounds_down() {
    assert_eq!(floor_div(7, 2), 3);
    assert_eq!(floor_div(-7, 2), -4);
    assert_eq!(floor_div(-6, 2), -3);
    assert_eq!(floor_div(0, 5), 0);
}

#[test]
fn ramp_is_monotone_both_ways() {
    let mut up = Modulator::new(0);
    up.set(FULL_SCALE, 3000, 1000);
    let mut down = Modulator::new(FULL_SCALE);
    down.set(-250_000, 700, 40);
    let mut prev_up = up.value_at(0);
    let mut prev_down = down.value_at(0);
    for t in 0..5000u64 {
        let u = up.value_at(t);
        let d = down.value_at(t);
        assert!(u >= prev_up);
        assert!(d <= prev_down);
        prev_up = u;
        prev_down = d;
    }
    assert_eq!(prev_up, FULL_SCALE);
    assert_eq!(prev_down, -250_000);
}

#[test]
fn ramp_starts_at_old_value_and_ends_on_target() {
    let mut m = Modulator::new(250_000);
    m.set(900_000, 2000, 500);
    assert_eq!(m.value_at(500), 250_000);
    assert_eq!(m.value_at(1500), 575_000);
    assert_eq!(m.value_at(2500), 900_000);
    assert_eq!(m.value_at(100_000), 900_000);
    assert!(m.in_transition(2499));
    assert!(!m.in_transition(2500));
}

#[test]
fn zero_duration_jumps_at_once() {
    let mut m = Modulator::new(10);
    m.set(-40, 0, 7);
    assert_eq!(m.value_at(7), -40);
    assert_eq!(m.value_at(0), -40);
    assert!(!m.in_transition(7));
}

#[test]
fn setting_the_resting_value_does_not_move() {
    let mut m = Modulator::new(0);
    m.set(FULL_SCALE, 3000, 0);
    m.set(FULL_SCALE, 3000, 5000);
    for t in [0u64, 4999, 5000, 6000, 7999, 8000, 9000] {
        assert_eq!(m.value_at(t), FULL_SCALE);
    }
}

#[test]
fn retarget_midway_starts_from_midpoint_value() {
    let mut m = Modulator::new(0);
    m.set(FULL_SCALE, 3000, 0);
    m.set(0, 1000, 1500);
    assert_eq!(m.from, 500_000);
    assert_eq!(m.value_at(1500), 500_000);
    assert_eq!(m.value_at(2000), 250_000);
    assert_eq!(m.value_at(2500), 0);
}

#[test]
fn mapping_hits_both_ends() {
    let m = ParameterMapping::new((0, FULL_SCALE), (0, 500_000));
    assert_eq!(m.apply(0), 0);
    assert_eq!(m.apply(FULL_SCALE), 500_000);
    assert_eq!(m.apply(500_000), 250_000);
}

#[test]
fn inverted_mapping_keeps_orientation() {
    let m = lead_cutoff_mapping();
    assert_eq!(m.input_range, (FULL_SCALE, 0));
    assert_eq!(m.apply(FULL_SCALE), 20_000);
    assert_eq!(m.apply(0), 2000);
    assert_eq!(m.apply(500_000), 11_000);
}

#[test]
fn mapping_extrapolates_outside_range() {
    let m = ParameterMapping::new((0, FULL_SCALE), (0, 500_000));
    assert_eq!(m.apply(2 * FULL_SCALE), 1_000_000);
    assert_eq!(m.apply(-FULL_SCALE), -500_000);
    let lead = lead_cutoff_mapping();
    assert_eq!(lead.apply(-FULL_SCALE), -16_000);
}

#[test]
fn startup_leaves_lead_filter_closed() {
    let s = SceneController::new();
    assert_eq!(s.mood, Mood::Basic);
    for k in ALL {
        assert_eq!(s.value_at(k, 0), 0);
        assert_eq!(s.value_at(k, 10_000), 0);
    }
    assert_eq!(s.lead_cutoff(0), 2000);
}

#[test]
fn electro_crossfade_runs_three_seconds() {
    let mut s = SceneController::new();
    assert_eq!(s.handle(InputKey::Char('2'), 0), Command::Select(Mood::Electro));
    assert_eq!(s.mood, Mood::Electro);
    assert_eq!(s.value_at(Mood::Electro, 1500), 500_000);
    assert_eq!(s.value_at(Mood::Funkot, 1500), 0);
    assert_eq!(s.value_at(Mood::Koplo, 1500), 0);
    assert_eq!(s.value_at(Mood::Basic, 1500), 0);
    assert_eq!(s.value_at(Mood::Electro, TRANSITION_MS), FULL_SCALE);
    assert_eq!(s.value_at(Mood::Funkot, TRANSITION_MS), 0);
    assert_eq!(s.value_at(Mood::Koplo, TRANSITION_MS), 0);
    assert_eq!(s.value_at(Mood::Basic, TRANSITION_MS), 0);
}

#[test]
fn rapid_double_command_restarts_ramps() {
    let mut s = SceneController::new();
    s.handle(InputKey::Char('2'), 0);
    s.handle(InputKey::Char('3'), 100);
    assert_eq!(s.mood, Mood::Funkot);
    assert_eq!(s.electro.from, 33_333);
    assert_eq!(s.electro.start_ms, 100);
    assert_eq!(s.funkot.start_ms, 100);
    assert_eq!(s.value_at(Mood::Electro, 3000), 1111);
    assert_eq!(s.value_at(Mood::Funkot, 3000), 966_666);
    assert_eq!(s.value_at(Mood::Electro, 3100), 0);
    assert_eq!(s.value_at(Mood::Funkot, 3100), FULL_SCALE);
}

#[test]
fn basic_mood_opens_lead_filter() {
    let mut s = SceneController::new();
    s.select(Mood::Basic, 1000);
    assert_eq!(s.lead_cutoff(1000), 2000);
    assert_eq!(s.lead_cutoff(2500), 11_000);
    assert_eq!(s.lead_cutoff(4000), 20_000);
    assert_eq!(s.param_value(Param::Fixed(20_000), 4000), 20_000);
    assert_eq!(s.param_value(volume_param(Mood::Basic, 300_000), 2500), 150_000);
}

#[test]
fn keys_map_to_commands() {
    assert_eq!(parse_key(InputKey::Char('1')), Command::Select(Mood::Basic));
    assert_eq!(parse_key(InputKey::Char('2')), Command::Select(Mood::Electro));
    assert_eq!(parse_key(InputKey::Char('3')), Command::Select(Mood::Funkot));
    assert_eq!(parse_key(InputKey::Char('4')), Command::Select(Mood::Koplo));
    assert_eq!(parse_key(InputKey::Escape), Command::Exit);
    assert_eq!(parse_key(InputKey::Enter), Command::Exit);
    assert_eq!(parse_key(InputKey::Char('5')), Command::Ignore);
    assert_eq!(parse_key(InputKey::Other), Command::Ignore);
}

#[test]
fn ignored_keys_change_nothing() {
    let mut s = SceneController::new();
    s.handle(InputKey::Char('4'), 0);
    let before = s;
    assert_eq!(s.handle(InputKey::Char('x'), 1000), Command::Ignore);
    assert_eq!(s.handle(InputKey::Escape, 1000), Command::Exit);
    assert_eq!(s, before);
}

#[test]
fn self_route_is_a_cycle() {
    let mut g = scene_mix_graph();
    assert_eq!(g.route(LEAD_BUS, Output::Bus(LEAD_BUS)), Err(MixError::RoutingCycle));
    assert_eq!(g.bus(LEAD_BUS).output, Output::Master);
    let looped = vec![Bus { cutoff: None, output: Output::Bus(0) }];
    assert!(matches!(build_mix_graph(looped), Err(MixError::RoutingCycle)));
}

#[test]
fn indirect_cycle_is_refused() {
    let mut g = MixGraph::new();
    let a = g.create_bus(None);
    let b = g.create_bus(None);
    let c = g.create_bus(None);
    assert_eq!(g.route(a, Output::Bus(b)), Ok(()));
    assert_eq!(g.route(b, Output::Bus(c)), Ok(()));
    assert_eq!(g.route(c, Output::Bus(a)), Err(MixError::RoutingCycle));
    assert_eq!(g.bus(c).output, Output::Master);
    assert_eq!(g.bus(a).output, Output::Bus(b));
    assert!(!is_acyclic(&vec![Output::Bus(1), Output::Bus(2), Output::Bus(0)]));
    assert!(is_acyclic(&vec![Output::Bus(1), Output::Bus(2), Output::Master]));
}

#[test]
fn unknown_bus_is_refused() {
    let mut g = scene_mix_graph();
    assert_eq!(g.route(5, Output::Master), Err(MixError::UnknownBus));
    assert_eq!(g.route(LEAD_BUS, Output::Bus(2)), Err(MixError::UnknownBus));
    let dangling = vec![Bus { cutoff: None, output: Output::Bus(3) }];
    assert!(matches!(build_mix_graph(dangling), Err(MixError::UnknownBus)));
}

#[test]
fn scene_graph_layout() {
    let g = scene_mix_graph();
    assert_eq!(g.bus_count(), 2);
    assert_eq!(g.bus(LEAD_BUS).cutoff, Some(Param::Modulated(Mood::Basic, lead_cutoff_mapping())));
    assert_eq!(g.bus(RHYTHM_BUS).cutoff, Some(Param::Fixed(20_000)));
    let chain = vec![
        Bus { cutoff: None, output: Output::Master },
        Bus { cutoff: None, output: Output::Bus(0) },
    ];
    let built = build_mix_graph(chain).unwrap();
    assert_eq!(built.bus(1).output, Output::Bus(0));
}

#[test]
fn scene_stems_share_loop_region() {
    let stems = scene_stems(29_533);
    assert_eq!(stems.len(), 5);
    for st in &stems {
        assert_eq!(st.loop_start_ms, 14_766);
        assert_eq!(st.loop_end_ms, 29_533);
    }
    assert_eq!(stems[0].volume, Param::Fixed(FULL_SCALE));
    assert_eq!(stems[0].output, Output::Bus(LEAD_BUS));
    assert_eq!(stems[2].volume, volume_param(Mood::Funkot, 1_200_000));
    assert_eq!(stems[3].output, Output::Master);
}

#[test]
fn invalid_loop_region_is_refused() {
    let base = StemSettings {
        loop_start_ms: 100,
        loop_end_ms: 100,
        volume: Param::Fixed(FULL_SCALE),
        output: Output::Master,
    };
    assert!(matches!(StemPlayer::start(1000, base), Err(StemError::InvalidLoopRegion)));
    let past_end = StemSettings { loop_start_ms: 100, loop_end_ms: 1001, ..base };
    assert!(matches!(StemPlayer::start(1000, past_end), Err(StemError::InvalidLoopRegion)));
    let fine = StemSettings { loop_start_ms: 100, loop_end_ms: 1000, ..base };
    assert!(StemPlayer::start(1000, fine).is_ok());
}

#[test]
fn stem_wraps_into_loop_region() {
    let stems = scene_stems(29_533);
    let mut p = StemPlayer::start(29_533, stems[1]).unwrap();
    assert_eq!(p.position_ms(), 0);
    p.advance(10_000);
    assert_eq!(p.position_ms(), 10_000);
    p.advance(19_533);
    assert_eq!(p.position_ms(), 14_766);
    p.advance(14_766 + 5);
    assert_eq!(p.position_ms(), 14_770);
    let mut q = StemPlayer::start(29_533, stems[4]).unwrap();
    q.advance(29_533 + 14_766 + 5);
    assert_eq!(q.position_ms(), p.position_ms());
}
