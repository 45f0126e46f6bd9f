//! The scene: four modulators, one per mood, the commands that switch
//! between moods, and the fixed bus and stem layout of the song.

use crate::mapping::ParameterMapping;
use crate::mix_graph::{Bus, MixGraph, Output};
use crate::modulator::{Modulator, FULL_SCALE};
use crate::mood::{Mood, Param};
use crate::stem::StemSettings;
use vstd::prelude::*;

verus! {

/// How long every mood change takes.
pub const TRANSITION_MS: u64 = 3000;

/// The cutoff of a fully open low-pass filter, in hertz.
pub const OPEN_CUTOFF_HZ: i32 = 20_000;

/// The cutoff of the lead filter when the lead is fully withdrawn, in hertz.
pub const CLOSED_CUTOFF_HZ: i32 = 2000;

/// Index of the lead bus in the scene's mix graph.
pub const LEAD_BUS: usize = 0;

/// Index of the rhythm bus in the scene's mix graph.
pub const RHYTHM_BUS: usize = 1;

/// A key as read from the terminal.
#[derive(Clone, Copy, Debug, PartialEq, Eq, Structural)]
pub enum InputKey {
    Char(char),
    Escape,
    Enter,
    Other,
}

/// What a key asks for.
#[derive(Clone, Copy, Debug, PartialEq, Eq, Structural)]
pub enum Command {
    Select(Mood),
    Exit,
    Ignore,
}

/// Digits one to four pick a mood; escape and enter quit; anything else is
/// ignored.
pub open spec fn command_spec(key: InputKey) -> Command {
    match key {
        InputKey::Char('1') => Command::Select(Mood::Basic),
        InputKey::Char('2') => Command::Select(Mood::Electro),
        InputKey::Char('3') => Command::Select(Mood::Funkot),
        InputKey::Char('4') => Command::Select(Mood::Koplo),
        InputKey::Escape | InputKey::Enter => Command::Exit,
        _ => Command::Ignore,
    }
}

pub fn parse_key(key: InputKey) -> (c: Command)
    ensures
        c == command_spec(key),
{
    match key {
        InputKey::Char('1') => Command::Select(Mood::Basic),
        InputKey::Char('2') => Command::Select(Mood::Electro),
        InputKey::Char('3') => Command::Select(Mood::Funkot),
        InputKey::Char('4') => Command::Select(Mood::Koplo),
        InputKey::Escape | InputKey::Enter => Command::Exit,
        _ => Command::Ignore,
    }
}

/// The target of mood `k`'s modulator once `selected` is chosen: full for
/// the selected mood, zero for the others.
pub open spec fn target_spec(selected: Mood, k: Mood) -> i32 {
    if k == selected {
        FULL_SCALE
    } else {
        0
    }
}

pub fn target_of(selected: Mood, k: Mood) -> (r: i32)
    ensures
        r == target_spec(selected, k),
{
    if k == selected {
        FULL_SCALE
    } else {
        0
    }
}

/// The mapping that drives the lead filter: a full lead modulator opens the
/// filter, an empty one closes it down to a muffled sound.
pub open spec fn lead_cutoff_mapping_spec() -> ParameterMapping {
    ParameterMapping {
        input_range: (FULL_SCALE, 0),
        output_range: (OPEN_CUTOFF_HZ, CLOSED_CUTOFF_HZ),
    }
}

pub fn lead_cutoff_mapping() -> (m: ParameterMapping)
    ensures
        m == lead_cutoff_mapping_spec(),
        m.wf(),
{
    ParameterMapping::new((FULL_SCALE, 0), (OPEN_CUTOFF_HZ, CLOSED_CUTOFF_HZ))
}

/// A volume that rises from silence to `peak` millionths of full amplitude
/// as mood `mood`'s modulator goes from zero to full.
pub open spec fn volume_param_spec(mood: Mood, peak: i32) -> Param {
    Param::Modulated(mood, ParameterMapping { input_range: (0, FULL_SCALE), output_range: (0, peak) })
}

pub fn volume_param(mood: Mood, peak: i32) -> (p: Param)
    ensures
        p == volume_param_spec(mood, peak),
        p.wf(),
{
    Param::Modulated(mood, ParameterMapping::new((0, FULL_SCALE), (0, peak)))
}

/// The scene's two buses: the lead bus, filtered by the lead modulator,
/// and the rhythm bus, whose filter stays open. Both feed the master.
pub open spec fn scene_buses_spec() -> Seq<Bus> {
    seq![
        Bus { cutoff: Some(Param::Modulated(Mood::Basic, lead_cutoff_mapping_spec())), output: Output::Master },
        Bus { cutoff: Some(Param::Fixed(OPEN_CUTOFF_HZ)), output: Output::Master },
    ]
}

pub fn scene_mix_graph() -> (g: MixGraph)
    ensures
        g.wf(),
        g.buses_spec() == scene_buses_spec(),
{
    let mut g = MixGraph::new();
    let lead = lead_cutoff_mapping();
    let _ = g.create_bus(Some(Param::Modulated(Mood::Basic, lead)));
    let _ = g.create_bus(Some(Param::Fixed(OPEN_CUTOFF_HZ)));
    proof {
        assert(g.buses_spec() =~= scene_buses_spec());
    }
    g
}

/// The scene's five stems, in the order piano, electro drum, funkot drum,
/// flute, koplo drum. All loop over the second half of the song, so that
/// they stay in phase; the piano plays at full volume through the lead bus.
pub open spec fn scene_stems_spec(song_ms: u64) -> Seq<StemSettings> {
    let start = song_ms / 2;
    seq![
        StemSettings { loop_start_ms: start, loop_end_ms: song_ms, volume: Param::Fixed(FULL_SCALE), output: Output::Bus(LEAD_BUS) },
        StemSettings { loop_start_ms: start, loop_end_ms: song_ms, volume: volume_param_spec(Mood::Electro, 500_000), output: Output::Bus(RHYTHM_BUS) },
        StemSettings { loop_start_ms: start, loop_end_ms: song_ms, volume: volume_param_spec(Mood::Funkot, 1_200_000), output: Output::Bus(RHYTHM_BUS) },
        StemSettings { loop_start_ms: start, loop_end_ms: song_ms, volume: volume_param_spec(Mood::Koplo, 300_000), output: Output::Master },
        StemSettings { loop_start_ms: start, loop_end_ms: song_ms, volume: volume_param_spec(Mood::Koplo, 500_000), output: Output::Bus(RHYTHM_BUS) },
    ]
}

pub fn scene_stems(song_ms: u64) -> (stems: Vec<StemSettings>)
    ensures
        stems@ == scene_stems_spec(song_ms),
        forall|i: int| 0 <= i < stems@.len() ==> (#[trigger] stems@[i]).volume.wf(),
{
    let start = song_ms / 2;
    let mut stems: Vec<StemSettings> = Vec::new();
    stems.push(StemSettings { loop_start_ms: start, loop_end_ms: song_ms, volume: Param::Fixed(FULL_SCALE), output: Output::Bus(LEAD_BUS) });
    stems.push(StemSettings { loop_start_ms: start, loop_end_ms: song_ms, volume: volume_param(Mood::Electro, 500_000), output: Output::Bus(RHYTHM_BUS) });
    stems.push(StemSettings { loop_start_ms: start, loop_end_ms: song_ms, volume: volume_param(Mood::Funkot, 1_200_000), output: Output::Bus(RHYTHM_BUS) });
    stems.push(StemSettings { loop_start_ms: start, loop_end_ms: song_ms, volume: volume_param(Mood::Koplo, 300_000), output: Output::Master });
    stems.push(StemSettings { loop_start_ms: start, loop_end_ms: song_ms, volume: volume_param(Mood::Koplo, 500_000), output: Output::Bus(RHYTHM_BUS) });
    proof {
        assert(stems@ =~= scene_stems_spec(song_ms));
    }
    stems
}

/// Owns one modulator per mood and switches between moods.
#[derive(Clone, Copy, Debug, PartialEq, Eq)]
pub struct SceneController {
    pub lead: Modulator,
    pub electro: Modulator,
    pub funkot: Modulator,
    pub koplo: Modulator,
    pub mood: Mood,
}

impl SceneController {
    /// The modulator that belongs to `mood`.
    pub open spec fn modulator_spec(self, mood: Mood) -> Modulator {
        match mood {
            Mood::Basic => self.lead,
            Mood::Electro => self.electro,
            Mood::Funkot => self.funkot,
            Mood::Koplo => self.koplo,
        }
    }

    /// The value of parameter `p` at time `now`.
    pub open spec fn param_spec(self, p: Param, now: int) -> int {
        match p {
            Param::Fixed(v) => v as int,
            Param::Modulated(mood, m) => m.map_spec(self.modulator_spec(mood).value_spec(now)),
        }
    }

    /// The starting scene: every modulator at rest at zero, mood basic.
    pub fn new() -> (s: SceneController)
        ensures
            s.mood == Mood::Basic,
            forall|k: Mood, t: int| #[trigger] s.modulator_spec(k).value_spec(t) == 0,
    {
        SceneController {
            lead: Modulator::new(0),
            electro: Modulator::new(0),
            funkot: Modulator::new(0),
            koplo: Modulator::new(0),
            mood: Mood::Basic,
        }
    }

    /// The value of `mood`'s modulator at `now`.
    pub fn value_at(&self, mood: Mood, now: u64) -> (r: i32)
        ensures
            r as int == self.modulator_spec(mood).value_spec(now as int),
    {
        match mood {
            Mood::Basic => self.lead.value_at(now),
            Mood::Electro => self.electro.value_at(now),
            Mood::Funkot => self.funkot.value_at(now),
            Mood::Koplo => self.koplo.value_at(now),
        }
    }

    /// The value of parameter `p` at `now`.
    pub fn param_value(&self, p: Param, now: u64) -> (r: i128)
        requires
            p.wf(),
        ensures
            r as int == self.param_spec(p, now as int),
    {
        match p {
            Param::Fixed(v) => v as i128,
            Param::Modulated(mood, m) => m.apply(self.value_at(mood, now)),
        }
    }

    /// The lead filter's cutoff at `now`, in hertz.
    pub fn lead_cutoff(&self, now: u64) -> (r: i128)
        ensures
            r as int == lead_cutoff_mapping_spec().map_spec(self.lead.value_spec(now as int)),
    {
        lead_cutoff_mapping().apply(self.lead.value_at(now))
    }

    /// Switches to `mood`: every modulator starts a ramp of `TRANSITION_MS`
    /// from its current value, to full for `mood` and to zero for the rest.
    pub fn select(&mut self, mood: Mood, now: u64)
        ensures
            final(self).mood == mood,
            forall|k: Mood| #[trigger] final(self).modulator_spec(k) == old(self).modulator_spec(k).set_spec(
                target_spec(mood, k),
                TRANSITION_MS,
                now,
            ),
    {
        self.lead.set(target_of(mood, Mood::Basic), TRANSITION_MS, now);
        self.electro.set(target_of(mood, Mood::Electro), TRANSITION_MS, now);
        self.funkot.set(target_of(mood, Mood::Funkot), TRANSITION_MS, now);
        self.koplo.set(target_of(mood, Mood::Koplo), TRANSITION_MS, now);
        self.mood = mood;
    }

    /// Acts on one key: a mood key selects that mood, the others leave the
    /// scene as it was. Returns what the key asked for.
    pub fn handle(&mut self, key: InputKey, now: u64) -> (c: Command)
        ensures
            c == command_spec(key),
            c matches Command::Select(m) ==> final(self).mood == m && forall|k: Mood| #[trigger] final(self).modulator_spec(k)
                == old(self).modulator_spec(k).set_spec(target_spec(m, k), TRANSITION_MS, now),
            !(c is Select) ==> *final(self) == *old(self),
    {
        let c = parse_key(key);
        match c {
            Command::Select(m) => self.select(m, now),
            _ => {},
        }
        c
    }
}

/// Once a mood change has run its course, the selected mood's modulator
/// rests at full and every other one at zero.
pub proof fn lemma_select_settles(s: SceneController, mood: Mood, now: u64, t: int)
    requires
        t >= now + TRANSITION_MS,
    ensures
        forall|k: Mood| #[trigger] s.modulator_spec(k).set_spec(target_spec(mood, k), TRANSITION_MS, now).value_spec(t)
            == target_spec(mood, k),
{
}

} // verus!
