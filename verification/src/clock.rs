//! The derby clock: a phase timer that knows five kinds of phase, how each
//! one counts, and which phase follows when a timer runs out. It knows nothing
//! of teams, reviews or halftime.

use std::time::Duration;
use std::time::Instant;
use vstd::prelude::*;

verus! {

/// Length of a period.
pub const PERIOD_NANOS: u64 = 1_800_000_000_000;

/// Length of a jam.
pub const JAM_NANOS: u64 = 120_000_000_000;

/// Length of a lineup.
pub const LINEUP_NANOS: u64 = 30_000_000_000;

/// Length of an intermission.
pub const INTERMISSION_NANOS: u64 = 600_000_000_000;

/// The most a team timeout may run before it becomes an official one.
pub const TEAM_TIMEOUT_NANOS: u64 = 90_000_000_000;

/// `std::time::Instant`, which the clock keeps as the moment it was made.
#[verifier::external_type_specification]
#[verifier::external_body]
pub struct ExInstant(Instant);

/// The kind of phase the clock is in.
#[derive(Clone, Copy, PartialEq, Eq, Structural, Debug)]
pub enum Clocktype {
    Jam,
    Lineup,
    TeamTimeout,
    OtherTimeout,
    Intermission,
}

impl Clocktype {
    /// The phase that follows by itself when this phase's timer has run
    /// its course. A jam and a lineup follow each other, and an official
    /// timeout follows a team timeout; the two other phases have no such
    /// successor and are their own.
    pub open spec fn spec_next_state(self) -> Clocktype {
        match self {
            Clocktype::Jam => Clocktype::Lineup,
            Clocktype::Lineup => Clocktype::Jam,
            Clocktype::TeamTimeout => Clocktype::OtherTimeout,
            _ => self,
        }
    }

    /// Whether the phase's timer runs down to zero (or up from zero).
    pub open spec fn spec_counts_down(self) -> bool {
        self == Clocktype::Jam || self == Clocktype::Lineup || self == Clocktype::Intermission
    }

    /// Whether the period clock runs during the phase.
    pub open spec fn spec_game_clock_runs(self) -> bool {
        self == Clocktype::Jam || self == Clocktype::Lineup
    }

    /// The time a phase of this kind starts with.
    pub open spec fn spec_start_amount(self) -> nat {
        match self {
            Clocktype::Jam => JAM_NANOS as nat,
            Clocktype::Lineup => LINEUP_NANOS as nat,
            Clocktype::Intermission => INTERMISSION_NANOS as nat,
            _ => 0,
        }
    }

    #[verifier::when_used_as_spec(spec_next_state)]
    pub fn next_state(self) -> (next: Clocktype)
        ensures
            next == self.spec_next_state(),
    {
        match self {
            Clocktype::Jam => Clocktype::Lineup,
            Clocktype::Lineup => Clocktype::Jam,
            Clocktype::TeamTimeout => Clocktype::OtherTimeout,
            _ => self,
        }
    }

    #[verifier::when_used_as_spec(spec_counts_down)]
    pub fn counts_down(self) -> (down: bool)
        ensures
            down == self.spec_counts_down(),
    {
        match self {
            Clocktype::Jam | Clocktype::Lineup | Clocktype::Intermission => true,
            _ => false,
        }
    }

    #[verifier::when_used_as_spec(spec_game_clock_runs)]
    pub fn game_clock_runs(self) -> (runs: bool)
        ensures
            runs == self.spec_game_clock_runs(),
    {
        match self {
            Clocktype::Jam | Clocktype::Lineup => true,
            _ => false,
        }
    }
}

/// What a clock holds, as mathematics.
pub struct ClockState {
    /// Time left in the period.
    pub period_clock: nat,
    pub period_number: nat,
    pub phase: Clocktype,
    /// Time left in the phase where it counts down, time spent in it where
    /// it counts up.
    pub phase_clock: nat,
    /// The moment up to which time has been accounted for.
    pub last_update: nat,
}

impl ClockState {
    /// A clock that has just been made: in intermission with `countdown` to
    /// go, before the first period, with a full period clock.
    pub open spec fn initial(countdown: nat) -> ClockState {
        ClockState {
            period_clock: PERIOD_NANOS as nat,
            period_number: 0,
            phase: Clocktype::Intermission,
            phase_clock: countdown,
            last_update: 0,
        }
    }

    /// The phase clock is within the range of its phase, and a timer that
    /// counts up shows no more time than has passed. Every time is one that
    /// a clock can hold.
    pub open spec fn valid(self) -> bool {
        &&& self.period_clock <= u64::MAX
        &&& self.phase_clock <= u64::MAX
        &&& self.last_update <= u64::MAX
        &&& self.phase == Clocktype::Jam ==> self.phase_clock <= JAM_NANOS
        &&& self.phase == Clocktype::Lineup ==> self.phase_clock <= LINEUP_NANOS
        &&& self.phase == Clocktype::TeamTimeout ==> self.phase_clock < TEAM_TIMEOUT_NANOS
        &&& !self.phase.spec_counts_down() ==> self.phase_clock <= self.last_update
        &&& self.period_number <= u8::MAX
    }

    /// Phase `ty` begins, with `decrement` already gone from its starting
    /// time (none is left where `decrement` is the larger).
    pub open spec fn started(self, ty: Clocktype, decrement: nat) -> ClockState {
        ClockState {
            phase: ty,
            phase_clock: if decrement <= ty.spec_start_amount() {
                (ty.spec_start_amount() - decrement) as nat
            } else {
                0
            },
            ..self
        }
    }

    /// Whether `elapsed` is enough to end the phase: a timer that counts
    /// down has run out, or a team timeout has reached its ceiling.
    pub open spec fn runs_out(self, elapsed: nat) -> bool {
        if self.phase.spec_counts_down() {
            self.phase_clock <= elapsed
        } else {
            self.phase == Clocktype::TeamTimeout && self.phase_clock + elapsed
                >= TEAM_TIMEOUT_NANOS
        }
    }

    /// The part of `elapsed` that the phase did not use before it ran out.
    pub open spec fn remainder(self, elapsed: nat) -> nat {
        (elapsed - self.phase_clock) as nat
    }

    /// The phase timer after `elapsed`. A timer that counts down and runs
    /// out hands the remainder to the phase that follows. A team timeout that
    /// reaches its ceiling becomes an official timeout that starts at zero.
    pub open spec fn timed(self, elapsed: nat) -> ClockState {
        if self.phase.spec_counts_down() {
            if self.phase_clock > elapsed {
                ClockState { phase_clock: (self.phase_clock - elapsed) as nat, ..self }
            } else {
                self.started(self.phase.spec_next_state(), self.remainder(elapsed))
            }
        } else if self.runs_out(elapsed) {
            self.started(self.phase.spec_next_state(), 0)
        } else {
            ClockState { phase_clock: self.phase_clock + elapsed, ..self }
        }
    }

    /// Whether the period ends within `elapsed`: the period clock runs, it
    /// reaches zero, and the clock is in a lineup or was in one when the time
    /// began. The end of the period then wins over whatever phase the timer
    /// alone would have led to.
    pub open spec fn period_ends(self, elapsed: nat) -> bool {
        &&& self.phase.spec_game_clock_runs()
        &&& elapsed >= self.period_clock
        &&& (self.phase == Clocktype::Lineup || self.timed(elapsed).phase == Clocktype::Lineup)
    }

    /// The period clock after `elapsed`: it runs during jams and lineups
    /// only and stops at zero.
    pub open spec fn period_clock_after(self, elapsed: nat) -> nat {
        if self.phase.spec_game_clock_runs() {
            if elapsed < self.period_clock {
                (self.period_clock - elapsed) as nat
            } else {
                0
            }
        } else {
            self.period_clock
        }
    }

    /// The clock brought up to the moment `now`.
    pub open spec fn reconcile(self, now: nat) -> ClockState {
        let elapsed = (now - self.last_update) as nat;
        let timed = self.timed(elapsed);
        let phased = if self.period_ends(elapsed) {
            timed.started(Clocktype::Intermission, 0)
        } else {
            timed
        };
        ClockState {
            period_clock: self.period_clock_after(elapsed),
            last_update: now,
            ..phased
        }
    }

    /// The period number after one more period has begun. The counter stops
    /// at the largest number it can hold.
    pub open spec fn next_period(self) -> nat {
        if self.period_number < u8::MAX {
            self.period_number + 1
        } else {
            self.period_number
        }
    }

    /// A jam begins, unless one is running. Out of an intermission a new
    /// period begins with it, on a full period clock.
    pub open spec fn jam_started(self) -> ClockState {
        match self.phase {
            Clocktype::Jam => self,
            Clocktype::Intermission => ClockState {
                period_number: self.next_period(),
                period_clock: PERIOD_NANOS as nat,
                ..self
            }.started(Clocktype::Jam, 0),
            _ => self.started(Clocktype::Jam, 0),
        }
    }

    /// The running jam ends and a lineup begins; without a jam nothing
    /// changes.
    pub open spec fn jam_stopped(self) -> ClockState {
        match self.phase {
            Clocktype::Jam => self.started(Clocktype::Lineup, 0),
            _ => self,
        }
    }

    /// A team timeout begins out of a jam, a lineup or an official timeout;
    /// in any other phase nothing changes.
    pub open spec fn team_timeout_started(self) -> ClockState {
        match self.phase {
            Clocktype::Jam | Clocktype::Lineup | Clocktype::OtherTimeout => self.started(
                Clocktype::TeamTimeout,
                0,
            ),
            _ => self,
        }
    }

    /// An official timeout begins out of a jam or a lineup. A team timeout
    /// becomes an official one and keeps the time it has run. In any other
    /// phase nothing changes.
    pub open spec fn other_timeout_started(self) -> ClockState {
        match self.phase {
            Clocktype::Jam | Clocktype::Lineup => self.started(Clocktype::OtherTimeout, 0),
            Clocktype::TeamTimeout => ClockState { phase: Clocktype::OtherTimeout, ..self },
            _ => self,
        }
    }

    /// The period clock is set by hand.
    pub open spec fn with_period_clock(self, time: nat) -> ClockState {
        ClockState { period_clock: time, ..self }
    }
}

/// The derby clock. Its state is its view; beside it the clock keeps the
/// moment it was made, from which it counts the time it reads.
pub struct Clock {
    gameclock: u64,
    period: u8,
    clocktype: Clocktype,
    activeclock: u64,
    lastupdate: u64,
    origin: Instant,
}

impl View for Clock {
    type V = ClockState;

    closed spec fn view(&self) -> ClockState {
        ClockState {
            period_clock: self.gameclock as nat,
            period_number: self.period as nat,
            phase: self.clocktype,
            phase_clock: self.activeclock as nat,
            last_update: self.lastupdate as nat,
        }
    }
}

/// `Instant::now`: the present moment. Nothing is known of it.
#[verifier::external_body]
fn instant_now() -> Instant {
    Instant::now()
}

/// `Instant::elapsed`: the time that has passed since `origin`. Nothing is
/// known of it.
#[verifier::external_body]
fn elapsed_since(origin: &Instant) -> Duration {
    origin.elapsed()
}

/// `Duration::as_nanos`: the length of `d` in whole nanoseconds. The length
/// of a `Duration` is hidden here, so nothing is stated of the number.
#[verifier::external_body]
fn whole_nanos(d: &Duration) -> u128 {
    d.as_nanos()
}

impl Clock {
    /// The clock's state is valid.
    pub open spec fn wf(&self) -> bool {
        self@.valid()
    }

    /// A clock made now, in intermission with no time to go.
    pub fn new() -> (clock: Clock)
        ensures
            clock.wf(),
            clock@ == ClockState::initial(0),
    {
        Clock::with_countdown(0)
    }

    /// A clock made now, in intermission with `countdown` to go until the
    /// bout.
    pub fn with_countdown(countdown: u64) -> (clock: Clock)
        ensures
            clock.wf(),
            clock@ == ClockState::initial(countdown as nat),
    {
        Clock {
            gameclock: PERIOD_NANOS,
            period: 0,
            clocktype: Clocktype::Intermission,
            activeclock: countdown,
            lastupdate: 0,
            origin: instant_now(),
        }
    }

    /// The present moment, counted from when the clock was made. It is never
    /// before the clock's last update.
    pub fn now(&self) -> (now: u64)
        ensures
            now >= self@.last_update,
    {
        let passed = elapsed_since(&self.origin);
        let nanos = whole_nanos(&passed);
        if nanos > u64::MAX as u128 {
            u64::MAX
        } else if nanos < self.lastupdate as u128 {
            self.lastupdate
        } else {
            nanos as u64
        }
    }

    /// The time a phase of kind `ty` starts with.
    pub fn clock_start_amt(&self, ty: Clocktype) -> (amount: u64)
        ensures
            amount == ty.spec_start_amount(),
    {
        match ty {
            Clocktype::Jam => JAM_NANOS,
            Clocktype::Lineup => LINEUP_NANOS,
            Clocktype::Intermission => INTERMISSION_NANOS,
            _ => 0,
        }
    }

    /// Begins phase `ty`, with `decrement` (where there is one) already gone
    /// from its starting time.
    pub fn start_clock(&mut self, ty: Clocktype, decrement: Option<u64>)
        ensures
            old(self).wf() ==> final(self).wf(),
            final(self)@ == old(self)@.started(
                ty,
                match decrement {
                    Some(d) => d as nat,
                    None => 0,
                },
            ),
    {
        let amount = self.clock_start_amt(ty);
        let left = match decrement {
            Some(d) => if d <= amount {
                amount - d
            } else {
                0
            },
            None => amount,
        };
        self.clocktype = ty;
        self.activeclock = left;
    }

    /// Brings the clock up to the moment `now` and tells whether the phase
    /// changed.
    pub fn reconcile(&mut self, now: u64) -> (changed: bool)
        requires
            old(self).wf(),
            now >= old(self)@.last_update,
        ensures
            final(self).wf(),
            final(self)@ == old(self)@.reconcile(now as nat),
            changed == (final(self)@.phase != old(self)@.phase),
    {
        let elapsed = now - self.lastupdate;
        let before = self.clocktype;
        if before.counts_down() {
            if self.activeclock > elapsed {
                self.activeclock = self.activeclock - elapsed;
            } else {
                let rem = elapsed - self.activeclock;
                self.start_clock(before.next_state(), Some(rem));
            }
        } else {
            let at_ceiling = match before {
                Clocktype::TeamTimeout => elapsed >= TEAM_TIMEOUT_NANOS - self.activeclock,
                _ => false,
            };
            if at_ceiling {
                self.start_clock(Clocktype::OtherTimeout, None);
            } else {
                self.activeclock = self.activeclock + elapsed;
            }
        }
        if before.game_clock_runs() {
            if elapsed < self.gameclock {
                self.gameclock = self.gameclock - elapsed;
            } else {
                self.gameclock = 0;
                let in_lineup = match (before, self.clocktype) {
                    (Clocktype::Lineup, _) | (_, Clocktype::Lineup) => true,
                    _ => false,
                };
                if in_lineup {
                    self.start_clock(Clocktype::Intermission, None);
                }
            }
        }
        self.lastupdate = now;
        match (before, self.clocktype) {
            (Clocktype::Jam, Clocktype::Jam)
            | (Clocktype::Lineup, Clocktype::Lineup)
            | (Clocktype::TeamTimeout, Clocktype::TeamTimeout)
            | (Clocktype::OtherTimeout, Clocktype::OtherTimeout)
            | (Clocktype::Intermission, Clocktype::Intermission) => false,
            _ => true,
        }
    }

    /// Reads the time and brings the clock up to it. Tells whether the phase
    /// changed. The moment that was read is the clock's last update after the
    /// call.
    pub fn tick(&mut self) -> (changed: bool)
        requires
            old(self).wf(),
        ensures
            final(self).wf(),
            final(self)@.last_update >= old(self)@.last_update,
            final(self)@ == old(self)@.reconcile(final(self)@.last_update),
            changed == (final(self)@.phase != old(self)@.phase),
    {
        let now = self.now();
        self.reconcile(now)
    }

    /// Brings the clock up to `now`, then begins a jam unless one is running.
    pub fn start_jam_at(&mut self, now: u64)
        requires
            old(self).wf(),
            now >= old(self)@.last_update,
        ensures
            final(self).wf(),
            final(self)@ == old(self)@.reconcile(now as nat).jam_started(),
    {
        self.reconcile(now);
        self.begin_jam();
    }

    /// Brings the clock up to `now`, then ends the jam if one is running.
    pub fn stop_jam_at(&mut self, now: u64)
        requires
            old(self).wf(),
            now >= old(self)@.last_update,
        ensures
            final(self).wf(),
            final(self)@ == old(self)@.reconcile(now as nat).jam_stopped(),
    {
        self.reconcile(now);
        self.end_jam();
    }

    /// Brings the clock up to `now`, then begins a team timeout where the
    /// phase allows one.
    pub fn team_timeout_at(&mut self, now: u64)
        requires
            old(self).wf(),
            now >= old(self)@.last_update,
        ensures
            final(self).wf(),
            final(self)@ == old(self)@.reconcile(now as nat).team_timeout_started(),
    {
        self.reconcile(now);
        self.begin_team_timeout();
    }

    /// Brings the clock up to `now`, then begins an official timeout where
    /// the phase allows one.
    pub fn other_timeout_at(&mut self, now: u64)
        requires
            old(self).wf(),
            now >= old(self)@.last_update,
        ensures
            final(self).wf(),
            final(self)@ == old(self)@.reconcile(now as nat).other_timeout_started(),
    {
        self.reconcile(now);
        self.begin_other_timeout();
    }

    /// Reads the time and does as `start_jam_at` at that moment.
    pub fn start_jam(&mut self)
        requires
            old(self).wf(),
        ensures
            final(self).wf(),
            final(self)@.last_update >= old(self)@.last_update,
            final(self)@ == old(self)@.reconcile(final(self)@.last_update).jam_started(),
    {
        let now = self.now();
        self.start_jam_at(now);
    }

    /// Reads the time and does as `stop_jam_at` at that moment.
    pub fn stop_jam(&mut self)
        requires
            old(self).wf(),
        ensures
            final(self).wf(),
            final(self)@.last_update >= old(self)@.last_update,
            final(self)@ == old(self)@.reconcile(final(self)@.last_update).jam_stopped(),
    {
        let now = self.now();
        self.stop_jam_at(now);
    }

    /// Reads the time and does as `team_timeout_at` at that moment.
    pub fn team_timeout(&mut self)
        requires
            old(self).wf(),
        ensures
            final(self).wf(),
            final(self)@.last_update >= old(self)@.last_update,
            final(self)@ == old(self)@.reconcile(
                final(self)@.last_update,
            ).team_timeout_started(),
    {
        let now = self.now();
        self.team_timeout_at(now);
    }

    /// Reads the time and does as `other_timeout_at` at that moment.
    pub fn other_timeout(&mut self)
        requires
            old(self).wf(),
        ensures
            final(self).wf(),
            final(self)@.last_update >= old(self)@.last_update,
            final(self)@ == old(self)@.reconcile(
                final(self)@.last_update,
            ).other_timeout_started(),
    {
        let now = self.now();
        self.other_timeout_at(now);
    }

    /// Begins a jam without reading or accounting for any time.
    pub(crate) fn begin_jam(&mut self)
        requires
            old(self).wf(),
        ensures
            final(self).wf(),
            final(self)@ == old(self)@.jam_started(),
    {
        match self.clocktype {
            Clocktype::Jam => {},
            Clocktype::Intermission => {
                if self.period < u8::MAX {
                    self.period = self.period + 1;
                }
                self.gameclock = PERIOD_NANOS;
                self.start_clock(Clocktype::Jam, None);
            },
            _ => {
                self.start_clock(Clocktype::Jam, None);
            },
        }
    }

    /// Ends the jam without reading or accounting for any time.
    pub(crate) fn end_jam(&mut self)
        requires
            old(self).wf(),
        ensures
            final(self).wf(),
            final(self)@ == old(self)@.jam_stopped(),
    {
        match self.clocktype {
            Clocktype::Jam => {
                self.start_clock(Clocktype::Lineup, None);
            },
            _ => {},
        }
    }

    /// Begins a team timeout without reading or accounting for any time.
    pub(crate) fn begin_team_timeout(&mut self)
        requires
            old(self).wf(),
        ensures
            final(self).wf(),
            final(self)@ == old(self)@.team_timeout_started(),
    {
        match self.clocktype {
            Clocktype::Jam | Clocktype::Lineup | Clocktype::OtherTimeout => {
                self.start_clock(Clocktype::TeamTimeout, None);
            },
            Clocktype::Intermission | Clocktype::TeamTimeout => {},
        }
    }

    /// Begins an official timeout without reading or accounting for any
    /// time.
    pub(crate) fn begin_other_timeout(&mut self)
        requires
            old(self).wf(),
        ensures
            final(self).wf(),
            final(self)@ == old(self)@.other_timeout_started(),
    {
        match self.clocktype {
            Clocktype::Jam | Clocktype::Lineup => {
                self.start_clock(Clocktype::OtherTimeout, None);
            },
            Clocktype::TeamTimeout => {
                self.clocktype = Clocktype::OtherTimeout;
            },
            Clocktype::Intermission | Clocktype::OtherTimeout => {},
        }
    }

    /// The period number and the time left in the period.
    pub fn get_time(&self) -> (time: (u8, u64))
        ensures
            time.0 == self@.period_number,
            time.1 == self@.period_clock,
    {
        (self.period, self.gameclock)
    }

    /// Sets the time left in the period.
    pub fn set_time(&mut self, time: u64)
        ensures
            old(self).wf() ==> final(self).wf(),
            final(self)@ == old(self)@.with_period_clock(time as nat),
    {
        self.gameclock = time;
    }

    /// The phase and its timer.
    pub fn get_active_clock(&self) -> (active: (Clocktype, u64))
        ensures
            active.0 == self@.phase,
            active.1 == self@.phase_clock,
    {
        (self.clocktype, self.activeclock)
    }

    /// The moment up to which the clock has accounted for time.
    pub fn last_update(&self) -> (at: u64)
        ensures
            at == self@.last_update,
    {
        self.lastupdate
    }
}

/// The period clock never runs backwards, it stops at zero, and it moves
/// only while the clock is in a jam or a lineup: there it loses exactly the
/// time that passed, or all it had.
pub proof fn lemma_period_clock_runs_in_play_only(s: ClockState, now: nat)
    requires
        now >= s.last_update,
    ensures
        s.reconcile(now).period_clock <= s.period_clock,
        !s.phase.spec_game_clock_runs() ==> s.reconcile(now).period_clock == s.period_clock,
        s.phase.spec_game_clock_runs() && now - s.last_update < s.period_clock ==> s.reconcile(
            now,
        ).period_clock == s.period_clock - (now - s.last_update),
        s.phase.spec_game_clock_runs() && now - s.last_update >= s.period_clock ==> s.reconcile(
            now,
        ).period_clock == 0,
{
}

/// While a timer has more time than passes, the phase stays and the timer
/// moves by exactly the time that passed: down where the phase counts down,
/// up where it counts up.
pub proof fn lemma_time_is_counted_once(s: ClockState, now: nat)
    requires
        now >= s.last_update,
        !s.runs_out((now - s.last_update) as nat),
        !s.period_ends((now - s.last_update) as nat),
    ensures
        s.reconcile(now).phase == s.phase,
        s.phase.spec_counts_down() ==> s.reconcile(now).phase_clock + (now - s.last_update)
            == s.phase_clock,
        !s.phase.spec_counts_down() ==> s.reconcile(now).phase_clock == s.phase_clock + (now
            - s.last_update),
        s.reconcile(now).last_update == now,
{
}

/// When a timer that counts down runs out within the time that passed, the
/// phase that follows starts short of the remainder: its timer and the
/// remainder together make its full length. This holds where the remainder is
/// no longer than the following phase and the period does not end in the same
/// stretch of time.
pub proof fn lemma_remainder_carries_over(s: ClockState, now: nat)
    requires
        now >= s.last_update,
        s.phase.spec_counts_down(),
        s.runs_out((now - s.last_update) as nat),
        !s.period_ends((now - s.last_update) as nat),
        s.remainder((now - s.last_update) as nat) <= s.phase.spec_next_state().spec_start_amount(),
    ensures
        s.reconcile(now).phase == s.phase.spec_next_state(),
        s.reconcile(now).phase_clock + s.remainder((now - s.last_update) as nat)
            == s.phase.spec_next_state().spec_start_amount(),
        s.remainder((now - s.last_update) as nat) + s.phase_clock == now - s.last_update,
{
}

/// Bringing a valid clock up to a later moment leaves it valid, at that
/// moment. So the last update never moves back.
pub proof fn lemma_reconcile_keeps_valid(s: ClockState, now: nat)
    requires
        s.valid(),
        s.last_update <= now <= u64::MAX,
    ensures
        s.reconcile(now).valid(),
        s.reconcile(now).last_update == now,
{
}

/// The four commands leave a valid clock valid, and none of them moves the
/// last update or, but for the first jam of a period, the period clock.
pub proof fn lemma_clock_commands_keep_valid(s: ClockState)
    requires
        s.valid(),
    ensures
        s.jam_started().valid(),
        s.jam_stopped().valid(),
        s.team_timeout_started().valid(),
        s.other_timeout_started().valid(),
        s.jam_stopped().period_clock == s.period_clock,
        s.team_timeout_started().period_clock == s.period_clock,
        s.other_timeout_started().period_clock == s.period_clock,
        s.phase != Clocktype::Intermission ==> s.jam_started().period_clock == s.period_clock,
{
}

} // verus!
