//! Client-side key repeat: a held key is pressed again once the negotiated
//! delay has passed, then at the negotiated rate, until it is released.

use vstd::prelude::*;

verus! {

/// The held key, when it was pressed or last repeated (milliseconds), and
/// whether it is already repeating or still waiting out the delay.
#[derive(Clone, Copy, Debug, PartialEq, Eq, Structural)]
pub struct RepeatKeyInfo {
    pub key: u32,
    pub since: u64,
    pub active: bool,
}

/// The repeat state machine: idle while no key is tracked, pending while the
/// tracked key waits out the delay, active while it repeats.
#[derive(Debug)]
pub struct RepeatEmulator {
    pub repeat_key: Option<RepeatKeyInfo>,
    /// Delay before the first repeat, in milliseconds.
    pub repeat_delay: Option<u32>,
    /// Repeats per second.
    pub repeat_rate: Option<u32>,
}

/// Milliseconds from `since` to `now` (none where the clock reads earlier).
pub open spec fn elapsed(since: u64, now: u64) -> int {
    if now >= since {
        now - since
    } else {
        0
    }
}

/// Milliseconds between two repeats at `rate` repeats per second.
pub open spec fn repeat_interval(rate: u32) -> int {
    1000int / (rate as int)
}

impl RepeatEmulator {
    /// A key is tracked only under a known repeat policy, and the rate is
    /// positive.
    pub open spec fn wf(&self) -> bool {
        &&& self.repeat_delay.is_some() == self.repeat_rate.is_some()
        &&& self.repeat_key.is_some() ==> self.repeat_delay.is_some()
        &&& self.repeat_rate matches Some(r) ==> r > 0
    }

    /// How long the tracked key must wait before its next repeat.
    pub open spec fn wait(&self) -> int
        recommends
            self.wf(),
            self.repeat_key.is_some(),
    {
        if self.repeat_key->0.active {
            repeat_interval(self.repeat_rate->0)
        } else {
            self.repeat_delay->0 as int
        }
    }

    /// Idle, with no repeat policy known yet.
    pub fn new() -> (e: Self)
        ensures
            e.wf(),
            e.repeat_key.is_none(),
            e.repeat_delay.is_none(),
            e.repeat_rate.is_none(),
    {
        Self { repeat_key: None, repeat_delay: None, repeat_rate: None }
    }

    /// Takes a repeat policy of `rate` repeats per second after `delay`
    /// milliseconds.
    pub fn update_repeat_info(&mut self, rate: u32, delay: u32)
        requires
            old(self).wf(),
            rate > 0,
        ensures
            final(self).wf(),
            final(self).repeat_rate == Some(rate),
            final(self).repeat_delay == Some(delay),
            final(self).repeat_key == old(self).repeat_key,
    {
        self.repeat_rate = Some(rate);
        self.repeat_delay = Some(delay);
    }

    /// Repeat is switched off: the tracked key is dropped.
    pub fn disable_repeat(&mut self)
        ensures
            final(self).wf(),
            final(self).repeat_key.is_none(),
            final(self).repeat_rate.is_none(),
            final(self).repeat_delay.is_none(),
    {
        self.repeat_rate = None;
        self.repeat_delay = None;
        self.repeat_key = None;
    }

    /// A key goes down at `now`: under a known policy it becomes the tracked
    /// key, waiting out the delay. A key pressed while another is held takes
    /// its place (the last press wins).
    pub fn press_key(&mut self, key: u32, now: u64)
        requires
            old(self).wf(),
        ensures
            final(self).wf(),
            final(self).repeat_rate == old(self).repeat_rate,
            final(self).repeat_delay == old(self).repeat_delay,
            old(self).repeat_delay.is_some() ==> final(self).repeat_key == Some(
                RepeatKeyInfo { key, since: now, active: false },
            ),
            old(self).repeat_delay.is_none() ==> final(self).repeat_key == old(self).repeat_key,
    {
        if self.repeat_delay.is_some() {
            self.repeat_key = Some(RepeatKeyInfo { key, since: now, active: false });
        }
    }

    /// A key goes up: if it is the tracked key, tracking ends.
    pub fn release_key(&mut self, key: u32)
        requires
            old(self).wf(),
        ensures
            final(self).wf(),
            final(self).repeat_rate == old(self).repeat_rate,
            final(self).repeat_delay == old(self).repeat_delay,
            final(self).repeat_key == match old(self).repeat_key {
                Some(info) => if info.key == key {
                    None
                } else {
                    Some(info)
                },
                None => None,
            },
    {
        if let Some(info) = self.repeat_key {
            if info.key == key {
                self.repeat_key = None;
            }
        }
    }

    /// One turn of the event loop at `now`: returns the key to press again,
    /// if its wait is over (the tracked key then repeats, its clock restarted).
    pub fn tick(&mut self, now: u64) -> (r: Option<u32>)
        requires
            old(self).wf(),
        ensures
            final(self).wf(),
            final(self).repeat_rate == old(self).repeat_rate,
            final(self).repeat_delay == old(self).repeat_delay,
            match old(self).repeat_key {
                None => r.is_none() && final(self).repeat_key.is_none(),
                Some(info) => if elapsed(info.since, now) >= old(self).wait() {
                    r == Some(info.key) && final(self).repeat_key == Some(
                        RepeatKeyInfo { key: info.key, since: now, active: true },
                    )
                } else {
                    r.is_none() && final(self).repeat_key == old(self).repeat_key
                },
            },
    {
        match self.repeat_key {
            None => None,
            Some(info) => {
                let passed: u64 = if now >= info.since {
                    now - info.since
                } else {
                    0
                };
                let wait: u64 = self.current_wait();
                if passed >= wait {
                    self.repeat_key = Some(RepeatKeyInfo { key: info.key, since: now, active: true });
                    Some(info.key)
                } else {
                    None
                }
            },
        }
    }

    fn current_wait(&self) -> (w: u64)
        requires
            self.wf(),
            self.repeat_key.is_some(),
        ensures
            w == self.wait(),
    {
        let info = self.repeat_key.unwrap();
        if info.active {
            let rate = self.repeat_rate.unwrap();
            (1000 / rate) as u64
        } else {
            self.repeat_delay.unwrap() as u64
        }
    }

    /// How long the event loop may wait at `now` before the next repeat is
    /// due: nothing while no key is tracked (it may wait for input alone).
    pub fn time_to_next_repeat(&self, now: u64) -> (r: Option<u64>)
        requires
            self.wf(),
        ensures
            self.repeat_key.is_none() ==> r.is_none(),
            self.repeat_key matches Some(info) ==> r == Some(
                if elapsed(info.since, now) >= self.wait() {
                    0
                } else {
                    (self.wait() - elapsed(info.since, now)) as u64
                },
            ),
    {
        match self.repeat_key {
            None => None,
            Some(info) => {
                let passed: u64 = if now >= info.since {
                    now - info.since
                } else {
                    0
                };
                let wait = self.current_wait();
                Some(if passed >= wait { 0 } else { wait - passed })
            },
        }
    }
}

} // verus!
