//! One looping stem: its loop region, volume source, destination and
//! playback position.

use crate::mix_graph::Output;
use crate::mood::Param;
use vstd::prelude::*;

verus! {

/// How a stem plays: the loop region `[loop_start_ms, loop_end_ms)`, where
/// its volume comes from, and the bus it feeds.
#[derive(Clone, Copy, Debug, PartialEq, Eq)]
pub struct StemSettings {
    pub loop_start_ms: u64,
    pub loop_end_ms: u64,
    pub volume: Param,
    pub output: Output,
}

#[derive(Clone, Copy, Debug, PartialEq, Eq, Structural)]
pub enum StemError {
    /// The loop region is empty or reaches past the end of the buffer.
    InvalidLoopRegion,
}

/// The position after playing `delta` milliseconds from `pos`: playback runs
/// on until the end of the loop region, then wraps back into it.
pub open spec fn wrap_position(pos: int, start: int, end: int, delta: int) -> int {
    if pos + delta < end {
        pos + delta
    } else {
        start + (pos + delta - end) % (end - start)
    }
}

/// A stem being played.
pub struct StemPlayer {
    settings: StemSettings,
    position_ms: u64,
}

impl StemPlayer {
    pub closed spec fn settings_spec(self) -> StemSettings {
        self.settings
    }

    pub closed spec fn position_spec(self) -> u64 {
        self.position_ms
    }

    /// The loop region is non-empty and the position lies before its end.
    pub open spec fn wf(self) -> bool {
        &&& self.settings_spec().loop_start_ms < self.settings_spec().loop_end_ms
        &&& self.position_spec() < self.settings_spec().loop_end_ms
        &&& self.settings_spec().volume.wf()
    }

    /// Starts playing a buffer of `buffer_ms` milliseconds from its
    /// beginning. Fails unless the loop region is non-empty and lies within
    /// the buffer.
    pub fn start(buffer_ms: u64, settings: StemSettings) -> (r: Result<StemPlayer, StemError>)
        requires
            settings.volume.wf(),
        ensures
            (settings.loop_start_ms < settings.loop_end_ms && settings.loop_end_ms <= buffer_ms)
                <==> r is Ok,
            r is Err ==> r == Err::<StemPlayer, StemError>(StemError::InvalidLoopRegion),
            r matches Ok(p) ==> (p.wf() && p.settings_spec() == settings && p.position_spec()
                == 0),
    {
        if settings.loop_start_ms >= settings.loop_end_ms || settings.loop_end_ms > buffer_ms {
            return Err(StemError::InvalidLoopRegion);
        }
        Ok(StemPlayer { settings, position_ms: 0 })
    }

    pub fn settings(&self) -> (s: StemSettings)
        ensures
            s == self.settings_spec(),
    {
        self.settings
    }

    pub fn position_ms(&self) -> (p: u64)
        ensures
            p == self.position_spec(),
    {
        self.position_ms
    }

    /// Moves playback on by `elapsed_ms`, wrapping to the start of the loop
    /// region whenever it reaches the end. Once inside the loop region the
    /// position never leaves it.
    pub fn advance(&mut self, elapsed_ms: u64)
        requires
            old(self).wf(),
        ensures
            final(self).wf(),
            final(self).settings_spec() == old(self).settings_spec(),
            final(self).position_spec() as int == wrap_position(
                old(self).position_spec() as int,
                old(self).settings_spec().loop_start_ms as int,
                old(self).settings_spec().loop_end_ms as int,
                elapsed_ms as int,
            ),
            old(self).position_spec() >= old(self).settings_spec().loop_start_ms
                ==> final(self).position_spec() >= final(self).settings_spec().loop_start_ms,
    {
        let start = self.settings.loop_start_ms;
        let end = self.settings.loop_end_ms;
        let p: u128 = self.position_ms as u128 + elapsed_ms as u128;
        if p < end as u128 {
            self.position_ms = p as u64;
        } else {
            let r: u128 = (p - end as u128) % ((end - start) as u128);
            self.position_ms = start + r as u64;
        }
    }
}

} // verus!
