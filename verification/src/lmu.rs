//! Le Mans Ultimate telemetry: the parts that are decisions rather than
//! floating-point arithmetic or OS handles.
//!
//! Frame pacing runs against the clock, not the game's event count; the
//! application supplies instants as nanoseconds on a monotonic clock.
use vstd::prelude::*;

verus! {

/// What a wait on the game returned.
#[derive(Debug, Clone, Copy, PartialEq, Eq, Structural)]
pub enum Wake {
    /// The game published an update.
    Event,
    /// The wait expired without an update.
    Timeout,
    /// The game process exited.
    GameExited,
}

/// Is a frame due at `now`? When it is, the schedule advances: a full
/// period after the one that was due, or — after a stall, when that is
/// already past — a full period from now, so a backlog never fires as a
/// burst of catch-up frames: the next frame is always after `now` and no
/// more than one period away. Times are nanoseconds on a `u64` clock; the
/// advance must fit in it, as adding past the end of a clock panics.
pub fn frame_is_due(next_due: &mut u64, now: u64, period: u64) -> (r: bool)
    requires
        *old(next_due) <= now ==> *old(next_due) as int + period <= u64::MAX,
        *old(next_due) <= now && *old(next_due) as int + period <= now ==> now as int + period
            <= u64::MAX,
    ensures
        r == (now >= *old(next_due)),
        !r ==> *final(next_due) == *old(next_due),
        r ==> *final(next_due) == if *old(next_due) + period <= now {
            now + period
        } else {
            *old(next_due) + period
        },
        r && period > 0 ==> now < *final(next_due) <= now + period,
{
    if now < *next_due {
        return false;
    }
    let scheduled = *next_due + period;
    *next_due = if scheduled <= now {
        now + period
    } else {
        scheduled
    };
    true
}

/// The scheduled lap count from the game's `maximumLaps`: `None` for a
/// time-certain session, which the game reports as `u32::MAX` (or zero).
pub fn lap_limit(maximum_laps: Option<u32>) -> (r: Option<u32>)
    ensures
        r == match maximum_laps {
            Some(n) => if n > 0 && n != u32::MAX {
                Some(n)
            } else {
                None
            },
            None => None,
        },
{
    match maximum_laps {
        Some(n) => {
            if n > 0 && n != u32::MAX {
                Some(n)
            } else {
                None
            }
        },
        None => None,
    }
}

/// The in-car pit menu; LMU nests it one level deep.
#[derive(Debug, Clone, Default)]
pub struct PitMenuWrapper {
    pub pit_menu: Vec<PitMenuItem>,
}

/// One row of the in-car pit menu; `current_setting` indexes `settings`.
#[derive(Debug, Clone, Default)]
pub struct PitMenuItem {
    /// Includes the trailing colon, as the game sends it: `"FUEL RATIO:"`.
    pub name: Option<String>,
    pub current_setting: Option<usize>,
    pub settings: Vec<PitMenuSetting>,
}

#[derive(Debug, Clone, Default)]
pub struct PitMenuSetting {
    pub text: Option<String>,
}

/// The label of the armed setting: `None` when there is no index, it is out
/// of range (a row with no choices), or that setting has no text.
pub open spec fn selected_text(item: PitMenuItem) -> Option<Seq<char>> {
    match item.current_setting {
        Some(i) => if i < item.settings@.len() {
            match item.settings@[i as int].text {
                Some(t) => Some(t@),
                None => None,
            }
        } else {
            None
        },
        None => None,
    }
}

impl PitMenuItem {
    /// The armed setting's label.
    pub fn selected(&self) -> (r: Option<&str>)
        ensures
            match selected_text(*self) {
                Some(t) => r matches Some(s) && s@ == t,
                None => r is None,
            },
    {
        let i = match self.current_setting {
            Some(i) => i,
            None => {
                return None;
            },
        };
        if i >= self.settings.len() {
            return None;
        }
        match &self.settings[i].text {
            Some(t) => Some(t.as_str()),
            None => None,
        }
    }
}

} // verus!
