//! The state of a bout: the clock, what its phase means, the teams'
//! allowances and the ledger of jams. Commands and the passing of time change
//! it; queries read it.

use crate::clock::Clock;
use crate::clock::ClockState;
use crate::clock::Clocktype;
use crate::jamstate::capped;
use crate::jamstate::lemma_jam_stays_valid;
use crate::jamstate::lemma_side_stays_valid;
use crate::jamstate::JamCommand;
use crate::jamstate::JamState;
use crate::jamstate::JamView;
use crate::jamstate::Team;
use crate::penaltycodes::PenaltyType;
use crate::roster;
use vstd::prelude::*;

verus! {

/// The team timeouts a team has in a bout.
pub const TEAM_TIMEOUTS: u8 = 3;

/// The official reviews a team has in a half.
pub const TEAM_REVIEWS: u8 = 2;

/// What the clock's timeout or intermission means.
#[derive(Clone, Copy, PartialEq, Eq, Structural, Debug)]
pub enum ActiveTimeout {
    NoTimeout,
    TeamTimeout(Team),
    OfficialTimeout,
    Review(Team),
    Halftime,
    PreGameCountdown,
}

/// The clock that is shown: the phase with its meaning and its time.
#[derive(Clone, Copy, PartialEq, Eq, Structural, Debug)]
pub enum ActiveClock {
    /// A jam, by its number within the period.
    Jam(usize, u64),
    Lineup(u64),
    TeamTimeout(Team, u64),
    OfficialTimeout(u64),
    Review(Team, u64),
    Halftime(u64),
    PreGameCountdown(u64),
    Idle,
}

/// A penalty as it is reported: the period and the jam's number within the
/// period, and the code.
#[derive(Clone, Copy, PartialEq, Eq, Structural, Debug)]
pub struct Penalty {
    pub period: u8,
    pub jam: usize,
    pub code: PenaltyType,
}

/// A command to the bout, as the scoreboard's operator gives it.
#[derive(Clone, Copy, PartialEq, Eq, Structural, Debug)]
pub enum UpdateCommand {
    /// Points for the home team and for the away team, added to the running
    /// trips of the current jam.
    ScoreAdj(i8, i8),
    /// The time left in the period, in seconds.
    SetTime(u16),
    StartJam,
    StopJam,
    TeamTimeout(Team),
    /// The team's jammer has passed the star in the current jam.
    StarPass(Team),
    OfficialTimeout,
    OfficialReview(Team),
    ReviewLost(Team),
    /// The team keeps the review it asked for, as far as it has one.
    ReviewRetained(Team),
}

/// What the scoreboard shows of a bout.
#[derive(Clone, Copy, PartialEq, Eq, Structural, Debug)]
pub struct ScoreUpdate {
    /// The home team's and the away team's points in the bout.
    pub score_home: u32,
    pub score_away: u32,
    /// Their points in the jam that runs, or in the last jam while none
    /// runs.
    pub jamscore_home: u32,
    pub jamscore_away: u32,
    pub period: u8,
    /// The time left in the period.
    pub gameclock: u64,
    pub activeclock: ActiveClock,
    pub timeouts_home: u8,
    pub timeouts_away: u8,
    pub reviews_home: u8,
    pub reviews_away: u8,
}

/// A penalty as it is reported, as mathematics.
pub struct PenaltyView {
    pub period: nat,
    pub jam: nat,
    pub code: PenaltyType,
}

impl View for Penalty {
    type V = PenaltyView;

    open spec fn view(&self) -> PenaltyView {
        PenaltyView { period: self.period as nat, jam: self.jam as nat, code: self.code }
    }
}

/// The penalties of a list, each as mathematics.
pub open spec fn penalty_views(penalties: Seq<Penalty>) -> Seq<PenaltyView> {
    penalties.map_values(|p: Penalty| p@)
}

/// A team's allowances and roster, as mathematics.
pub struct TeamStateView {
    pub timeouts: nat,
    pub reviews: nat,
    pub roster: roster::TeamView,
}

/// A team's allowances and roster.
pub struct TeamState {
    timeouts: u8,
    reviews: u8,
    roster: roster::Team,
}

impl View for TeamState {
    type V = TeamStateView;

    closed spec fn view(&self) -> TeamStateView {
        TeamStateView {
            timeouts: self.timeouts as nat,
            reviews: self.reviews as nat,
            roster: self.roster@,
        }
    }
}

impl TeamState {
    /// A team at the start of a bout, with all its allowances.
    pub fn new(roster: roster::Team) -> (team: TeamState)
        ensures
            team@ == (TeamStateView {
                timeouts: TEAM_TIMEOUTS as nat,
                reviews: TEAM_REVIEWS as nat,
                roster: roster@,
            }),
    {
        TeamState { timeouts: TEAM_TIMEOUTS, reviews: TEAM_REVIEWS, roster }
    }
}

/// The ledgers of a list, each as mathematics.
pub open spec fn jam_views(jams: Seq<JamState>) -> Seq<JamView> {
    jams.map_values(|jam: JamState| jam@)
}

/// The penalties that one jam's entries hold for the skater at place
/// `skater` of the roster, in the order of the entries, each reported for
/// the period and jam `jam`.
pub open spec fn penalties_in_jam(
    entries: Seq<(usize, PenaltyType)>,
    skater: int,
    jam: (nat, nat),
) -> Seq<PenaltyView>
    decreases entries.len(),
{
    if entries.len() == 0 {
        Seq::empty()
    } else {
        let front = penalties_in_jam(entries.drop_last(), skater, jam);
        if entries.last().0 == skater {
            front.push(PenaltyView { period: jam.0, jam: jam.1, code: entries.last().1 })
        } else {
            front
        }
    }
}

/// The state of a bout, as mathematics.
#[verifier::ext_equal]
pub struct GameView {
    pub clock: ClockState,
    pub tag: ActiveTimeout,
    pub home: TeamStateView,
    pub away: TeamStateView,
    /// One ledger for each jam, the last one for the jam that runs or comes
    /// next.
    pub ledger: Seq<JamView>,
    /// The place in the ledger of the second period's first jam; zero as
    /// long as the first period has not ended.
    pub second_period_start: nat,
}

impl GameView {
    /// A bout before it begins: the clock counts down to it, both teams
    /// have all their allowances, and the ledger holds the empty place of the
    /// first jam.
    pub open spec fn initial(home: roster::TeamView, away: roster::TeamView, countdown: nat)
        -> GameView {
        GameView {
            clock: ClockState::initial(countdown),
            tag: ActiveTimeout::PreGameCountdown,
            home: TeamStateView {
                timeouts: TEAM_TIMEOUTS as nat,
                reviews: TEAM_REVIEWS as nat,
                roster: home,
            },
            away: TeamStateView {
                timeouts: TEAM_TIMEOUTS as nat,
                reviews: TEAM_REVIEWS as nat,
                roster: away,
            },
            ledger: seq![JamView::empty()],
            second_period_start: 0,
        }
    }

    /// Whether a phase with this tag has a clock to show. A team timeout
    /// is some team's; an official timeout is just that or some team's
    /// review; an intermission is halftime, the countdown to the bout or
    /// nothing. A jam and a lineup mean themselves, whatever the tag.
    pub open spec fn can_show(phase: Clocktype, tag: ActiveTimeout) -> bool {
        match phase {
            Clocktype::Jam | Clocktype::Lineup => true,
            Clocktype::TeamTimeout => tag is TeamTimeout,
            Clocktype::OtherTimeout => tag is OfficialTimeout || tag is Review,
            Clocktype::Intermission => tag is Halftime || tag is PreGameCountdown
                || tag is NoTimeout,
        }
    }

    /// Whether a phase can carry this tag. Outside an intermission it is a
    /// tag with which the phase has a clock to show. An intermission carries
    /// any tag: a timeout or review that is called during it leaves its tag
    /// there, though the clock stays in the intermission.
    pub open spec fn consistent(phase: Clocktype, tag: ActiveTimeout) -> bool {
        phase == Clocktype::Intermission || Self::can_show(phase, tag)
    }

    /// Whether the bout has a clock to show. A valid bout has one but in an
    /// intermission during which a timeout or review was called.
    pub open spec fn has_shown_clock(self) -> bool {
        Self::can_show(self.clock.phase, self.tag)
    }

    /// The clock is valid and its phase can mean what the tag says; the
    /// ledger has a place for the current jam, and in none of its jams is a
    /// jammer lead who has lost lead; the second period starts within the
    /// ledger; no team has more allowances than a bout gives; both
    /// rosters stand in the order of the numbers.
    pub open spec fn valid(self) -> bool {
        &&& self.clock.valid()
        &&& Self::consistent(self.clock.phase, self.tag)
        &&& self.ledger.len() >= 1
        &&& forall|jam: int| 0 <= jam < self.ledger.len() ==> (#[trigger] self.ledger[jam]).valid()
        &&& self.second_period_start < self.ledger.len()
        &&& self.home.timeouts <= TEAM_TIMEOUTS
        &&& self.away.timeouts <= TEAM_TIMEOUTS
        &&& self.home.reviews <= TEAM_REVIEWS
        &&& self.away.reviews <= TEAM_REVIEWS
        &&& roster::in_number_order(self.home.roster.skaters)
        &&& roster::in_number_order(self.away.roster.skaters)
        &&& self.home.roster.skaters.len() <= usize::MAX
        &&& self.away.roster.skaters.len() <= usize::MAX
    }

    /// The allowances and roster of `team`.
    pub open spec fn side(self, team: Team) -> TeamStateView {
        match team {
            Team::Home => self.home,
            Team::Away => self.away,
        }
    }

    /// The state with those of `team` replaced.
    pub open spec fn with_side(self, team: Team, side: TeamStateView) -> GameView {
        match team {
            Team::Home => GameView { home: side, ..self },
            Team::Away => GameView { away: side, ..self },
        }
    }

    /// The ledger of the current jam: the last one.
    pub open spec fn current(self) -> JamView {
        self.ledger.last()
    }

    /// The state with the ledger at place `place` replaced.
    pub open spec fn with_jam(self, place: int, jam: JamView) -> GameView {
        GameView { ledger: self.ledger.update(place, jam), ..self }
    }

    /// The state with the current jam's ledger replaced.
    pub open spec fn with_current(self, jam: JamView) -> GameView {
        GameView { ledger: self.ledger.update(self.ledger.len() - 1, jam), ..self }
    }

    /// The current jam's number within its period, counted from one.
    pub open spec fn jam_number(self) -> nat {
        (self.ledger.len() - self.second_period_start) as nat
    }

    /// The period and the number within the period of the jam at place
    /// `jam` of the ledger.
    pub open spec fn period_jam(self, jam: int) -> (nat, nat) {
        if self.second_period_start == 0 || jam < self.second_period_start {
            (1, (jam + 1) as nat)
        } else {
            (2, (jam - self.second_period_start + 1) as nat)
        }
    }

    /// The current jam ends at `now`: its ledger is closed, the empty place
    /// of the next jam follows it, and the tag is cleared.
    pub open spec fn jam_closed(self, now: nat) -> GameView {
        GameView {
            ledger: self.with_current(JamView { end: Some(now), ..self.current() }).ledger.push(
                JamView::empty(),
            ),
            tag: ActiveTimeout::NoTimeout,
            ..self
        }
    }

    /// Halftime is left: both teams have their reviews again. Where the
    /// tag does not say halftime, nothing changes.
    pub open spec fn halftime_left(self) -> GameView {
        if self.tag == ActiveTimeout::Halftime {
            GameView {
                home: TeamStateView { reviews: TEAM_REVIEWS as nat, ..self.home },
                away: TeamStateView { reviews: TEAM_REVIEWS as nat, ..self.away },
                ..self
            }
        } else {
            self
        }
    }

    /// What follows when time has moved the clock out of the phase
    /// `outgoing` into the phase it shows now. A jam that ran out is closed
    /// as one that was stopped. Both teams have their reviews again when
    /// halftime is left. With the intermission after the first period
    /// halftime begins and the second period starts at the current place of
    /// the ledger; any other intermission means nothing. A team timeout that
    /// became an official one by running long is tagged as one.
    pub open spec fn phase_changed(self, outgoing: Clocktype, now: nat) -> GameView {
        let closed = if outgoing == Clocktype::Jam {
            self.jam_closed(now)
        } else {
            self
        };
        let left = if outgoing == Clocktype::Intermission {
            closed.halftime_left()
        } else {
            closed
        };
        if left.clock.phase == Clocktype::Intermission {
            if left.clock.period_number == 1 {
                GameView {
                    second_period_start: (left.ledger.len() - 1) as nat,
                    tag: ActiveTimeout::Halftime,
                    ..left
                }
            } else {
                GameView { tag: ActiveTimeout::NoTimeout, ..left }
            }
        } else if left.clock.phase == Clocktype::OtherTimeout {
            GameView { tag: ActiveTimeout::OfficialTimeout, ..left }
        } else {
            left
        }
    }

    /// The bout brought up to the moment `now`.
    pub open spec fn tick(self, now: nat) -> GameView {
        let clock = self.clock.reconcile(now);
        let timed = GameView { clock, ..self };
        if clock.phase != self.clock.phase {
            timed.phase_changed(self.clock.phase, now)
        } else {
            timed
        }
    }

    /// A running jam is stopped at `now`; without one nothing changes.
    pub open spec fn jam_stopped(self, now: nat) -> GameView {
        if self.clock.phase == Clocktype::Jam {
            GameView { clock: self.clock.jam_stopped(), ..self }.jam_closed(now)
        } else {
            self
        }
    }

    /// The bout is brought up to `now`; then a jam begins, unless one is
    /// running: it begins at `now`, and the tag is cleared. The teams'
    /// allowances stay as they are.
    pub open spec fn start_jam(self, now: nat) -> GameView {
        let s = self.tick(now);
        if s.clock.phase == Clocktype::Jam {
            s
        } else {
            GameView {
                clock: s.clock.jam_started(),
                tag: ActiveTimeout::NoTimeout,
                ..s.with_current(JamView { start: Some(now), ..s.current() })
            }
        }
    }

    /// The bout is brought up to `now`; then a running jam is stopped.
    pub open spec fn stop_jam(self, now: nat) -> GameView {
        self.tick(now).jam_stopped(now)
    }

    /// An official timeout begins, whatever timeout was running.
    pub open spec fn official_timeout_started(self) -> GameView {
        GameView {
            clock: self.clock.other_timeout_started(),
            tag: ActiveTimeout::OfficialTimeout,
            ..self
        }
    }

    /// An official timeout is called at `now`: the bout is brought up to
    /// `now`, a running jam is stopped, and the official timeout begins.
    /// During an intermission the tag is set all the same, and the clock
    /// stays in the intermission.
    pub open spec fn official_timeout(self, now: nat) -> GameView {
        self.stop_jam(now).official_timeout_started()
    }

    /// Whether a team timeout that `team` calls at `now` is granted: the
    /// team has one left.
    pub open spec fn team_timeout_granted(self, team: Team, now: nat) -> bool {
        self.stop_jam(now).side(team).timeouts > 0
    }

    /// `team` calls a team timeout at `now`: the bout is brought up to
    /// `now` and a running jam is stopped. Where the timeout is granted the
    /// team has one less and its timeout begins. Where the team has none left
    /// an official timeout begins in its place. During an intermission the
    /// allowance is spent and the tag is set all the same, and the clock
    /// stays in the intermission.
    pub open spec fn team_timeout(self, team: Team, now: nat) -> GameView {
        let s = self.stop_jam(now);
        if s.side(team).timeouts > 0 {
            GameView {
                clock: s.clock.team_timeout_started(),
                tag: ActiveTimeout::TeamTimeout(team),
                ..s.with_side(
                    team,
                    TeamStateView { timeouts: (s.side(team).timeouts - 1) as nat, ..s.side(team) },
                )
            }
        } else {
            s.official_timeout_started()
        }
    }

    /// Whether an official review that `team` asks for at `now` is granted:
    /// the team has one left.
    pub open spec fn official_review_granted(self, team: Team, now: nat) -> bool {
        self.stop_jam(now).side(team).reviews > 0
    }

    /// `team` asks for an official review at `now`: the bout is brought up
    /// to `now` and a running jam is stopped. Where the review is granted the
    /// team has one less and the official timeout that begins is its review.
    /// Where the team has none left the official timeout is just that. During
    /// an intermission the allowance is spent and the tag is set all the
    /// same, and the clock stays in the intermission.
    pub open spec fn official_review(self, team: Team, now: nat) -> GameView {
        let s = self.stop_jam(now);
        if s.side(team).reviews > 0 {
            GameView {
                clock: s.clock.other_timeout_started(),
                tag: ActiveTimeout::Review(team),
                ..s.with_side(
                    team,
                    TeamStateView { reviews: (s.side(team).reviews - 1) as nat, ..s.side(team) },
                )
            }
        } else {
            s.official_timeout_started()
        }
    }

    /// `team` has lost its review and has none left.
    pub open spec fn review_lost(self, team: Team) -> GameView {
        self.with_side(team, TeamStateView { reviews: 0, ..self.side(team) })
    }

    /// The period clock is set by hand.
    pub open spec fn set_time(self, time: nat) -> GameView {
        GameView { clock: self.clock.with_period_clock(time), ..self }
    }

    /// The bout after a command that takes no time: points, a star pass, a
    /// lost or retained review, the period clock set by hand. A command that
    /// takes time leaves the bout as it is here.
    pub open spec fn edited(self, command: UpdateCommand) -> GameView {
        match command {
            UpdateCommand::ScoreAdj(home, away) => self.with_current(
                self.current().score_adjusted(home as int, away as int),
            ),
            UpdateCommand::SetTime(seconds) => self.set_time(seconds as nat * 1_000_000_000),
            UpdateCommand::StarPass(team) => self.with_current(
                self.current().with_side(team, self.current().side(team).with_starpass(true)),
            ),
            UpdateCommand::ReviewLost(team) => self.review_lost(team),
            _ => self,
        }
    }

    /// The bout after a command given at `now`.
    pub open spec fn updated(self, command: UpdateCommand, now: nat) -> GameView {
        match command {
            UpdateCommand::StartJam => self.start_jam(now),
            UpdateCommand::StopJam => self.stop_jam(now),
            UpdateCommand::OfficialTimeout => self.official_timeout(now),
            UpdateCommand::TeamTimeout(team) => self.team_timeout(team, now),
            UpdateCommand::OfficialReview(team) => self.official_review(team, now),
            _ => self.edited(command),
        }
    }

    /// The points that are shown for the jam: those of the current jam once
    /// it has begun, before that those of the jam before it, and none before
    /// the first jam.
    pub open spec fn shown_jam(self) -> JamView {
        if self.current().start is Some {
            self.current()
        } else if self.ledger.len() >= 2 {
            self.ledger[self.ledger.len() - 2]
        } else {
            JamView::empty()
        }
    }

    /// Whether a skater of `team` wears `number`.
    pub open spec fn knows(self, team: Team, number: Seq<char>) -> bool {
        roster::place_of(self.side(team).roster.skaters, number) is Some
    }

    /// A penalty of code `code` for the skater of `team` who wears `number`
    /// goes on the current jam's ledger, under the skater's place in the
    /// roster. For a number that nobody wears nothing changes.
    pub open spec fn penalty(self, team: Team, number: Seq<char>, code: char) -> GameView {
        match roster::place_of(self.side(team).roster.skaters, number) {
            Some(place) => self.with_current(
                self.current().with_side(
                    team,
                    self.current().side(team).with_penalty(
                        place as usize,
                        PenaltyType::spec_from_char(code),
                    ),
                ),
            ),
            None => self,
        }
    }

    /// The clock that is shown, for a bout that has one.
    pub open spec fn active_clock(self) -> ActiveClock {
        let time = self.clock.phase_clock as u64;
        match self.clock.phase {
            Clocktype::Jam => ActiveClock::Jam(self.jam_number() as usize, time),
            Clocktype::Lineup => ActiveClock::Lineup(time),
            Clocktype::TeamTimeout => match self.tag {
                ActiveTimeout::TeamTimeout(team) => ActiveClock::TeamTimeout(team, time),
                _ => ActiveClock::Idle,
            },
            Clocktype::OtherTimeout => match self.tag {
                ActiveTimeout::Review(team) => ActiveClock::Review(team, time),
                _ => ActiveClock::OfficialTimeout(time),
            },
            Clocktype::Intermission => match self.tag {
                ActiveTimeout::Halftime => ActiveClock::Halftime(time),
                ActiveTimeout::PreGameCountdown => ActiveClock::PreGameCountdown(time),
                _ => ActiveClock::Idle,
            },
        }
    }

    /// The points of `team` in the first `jams` jams of the ledger.
    pub open spec fn total_upto(self, team: Team, jams: int) -> nat
        decreases jams,
    {
        if jams <= 0 {
            0
        } else {
            self.total_upto(team, jams - 1) + self.ledger[jams - 1].side(team).score()
        }
    }

    /// The points of `team` in the bout.
    pub open spec fn total(self, team: Team) -> nat {
        self.total_upto(team, self.ledger.len() as int)
    }

    /// The penalties that the first `jams` jams of the ledger hold for the
    /// skater at place `skater` of the roster of `team`, in the order of the
    /// ledger.
    pub open spec fn penalties_upto(self, team: Team, skater: int, jams: int) -> Seq<
        PenaltyView,
    >
        decreases jams,
    {
        if jams <= 0 {
            Seq::empty()
        } else {
            self.penalties_upto(team, skater, jams - 1) + penalties_in_jam(
                self.ledger[jams - 1].side(team).penalties,
                skater,
                self.period_jam(jams - 1),
            )
        }
    }

    /// The penalties of the skater at place `skater` of the roster of
    /// `team`, as the whole ledger holds them.
    pub open spec fn penalties_of(self, team: Team, skater: int) -> Seq<PenaltyView> {
        self.penalties_upto(team, skater, self.ledger.len() as int)
    }
}

/// Time leaves a valid bout valid.
pub proof fn lemma_tick_keeps_valid(g: GameView, now: nat)
    requires
        g.valid(),
        g.clock.last_update <= now <= u64::MAX,
    ensures
        g.tick(now).valid(),
        g.tick(now).clock == g.clock.reconcile(now),
        g.tick(now).clock.last_update == now,
{
}

/// Every command leaves a valid bout valid, and the clock at the moment it
/// was given.
pub proof fn lemma_commands_keep_valid(g: GameView, team: Team, now: nat)
    requires
        g.valid(),
        g.clock.last_update <= now <= u64::MAX,
    ensures
        g.start_jam(now).valid(),
        g.stop_jam(now).valid(),
        g.official_timeout(now).valid(),
        g.team_timeout(team, now).valid(),
        g.official_review(team, now).valid(),
        g.start_jam(now).clock.last_update == now,
        g.stop_jam(now).clock.last_update == now,
        g.official_timeout(now).clock.last_update == now,
        g.team_timeout(team, now).clock.last_update == now,
        g.official_review(team, now).clock.last_update == now,
{
    lemma_tick_keeps_valid(g, now);
}

/// A valid bout stays valid when one of its jams' ledgers is replaced by
/// one on which no jammer is lead who has lost lead.
pub proof fn lemma_writing_keeps_valid(g: GameView, place: int, jam: JamView)
    requires
        g.valid(),
        0 <= place < g.ledger.len(),
        jam.valid(),
    ensures
        g.with_jam(place, jam).valid(),
{
    let after = g.with_jam(place, jam);
    assert forall|j: int| 0 <= j < after.ledger.len() implies (#[trigger] after.ledger[j]).valid() by {
        if j != place {
            assert(g.ledger[j].valid());
        }
    }
}

/// What is written by hand leaves a valid bout valid, where the ledger
/// that is written is one on which no jammer is lead who has lost lead.
pub proof fn lemma_edits_keep_valid(
    g: GameView,
    team: Team,
    time: nat,
    number: Seq<char>,
    code: char,
    jam: JamView,
)
    requires
        g.valid(),
        jam.valid(),
        time <= u64::MAX,
    ensures
        g.review_lost(team).valid(),
        g.set_time(time).valid(),
        g.penalty(team, number, code).valid(),
        g.with_current(jam).valid(),
{
}

/// In a valid bout that has a clock to show, the clock that is shown is
/// that of its phase: a jam with its number, a lineup, the timeout of the
/// team that the tag names, an official timeout or the review of the team
/// that the tag names, halftime, the countdown to the bout; nothing is shown
/// only in an intermission that means nothing. The time shown is the phase
/// clock. A valid bout has a clock to show whenever it is not in an
/// intermission.
pub proof fn lemma_shown_clock_has_its_meaning(g: GameView)
    requires
        g.valid(),
    ensures
        g.clock.phase != Clocktype::Intermission ==> g.has_shown_clock(),
        g.has_shown_clock() ==> match g.active_clock() {
            ActiveClock::Jam(number, time) => g.clock.phase == Clocktype::Jam && time
                == g.clock.phase_clock && (g.ledger.len() <= usize::MAX ==> number
                == g.jam_number() && number >= 1),
            ActiveClock::Lineup(time) => g.clock.phase == Clocktype::Lineup && time
                == g.clock.phase_clock,
            ActiveClock::TeamTimeout(team, time) => g.clock.phase == Clocktype::TeamTimeout
                && g.tag == ActiveTimeout::TeamTimeout(team) && time == g.clock.phase_clock,
            ActiveClock::OfficialTimeout(time) => g.clock.phase == Clocktype::OtherTimeout
                && g.tag == ActiveTimeout::OfficialTimeout && time == g.clock.phase_clock,
            ActiveClock::Review(team, time) => g.clock.phase == Clocktype::OtherTimeout && g.tag
                == ActiveTimeout::Review(team) && time == g.clock.phase_clock,
            ActiveClock::Halftime(time) => g.clock.phase == Clocktype::Intermission && g.tag
                == ActiveTimeout::Halftime && time == g.clock.phase_clock,
            ActiveClock::PreGameCountdown(time) => g.clock.phase == Clocktype::Intermission
                && g.tag == ActiveTimeout::PreGameCountdown && time == g.clock.phase_clock,
            ActiveClock::Idle => g.clock.phase == Clocktype::Intermission && g.tag
                == ActiveTimeout::NoTimeout,
        },
{
}

/// Time gives no team an allowance and takes none: by itself the clock
/// never leaves an intermission, so halftime is never left by time alone.
/// Stopping a jam changes no allowance either.
pub proof fn lemma_time_keeps_allowances(g: GameView, now: nat)
    requires
        g.valid(),
        now >= g.clock.last_update,
    ensures
        g.tick(now).home == g.home,
        g.tick(now).away == g.away,
        g.stop_jam(now).home == g.home,
        g.stop_jam(now).away == g.away,
        g.clock.phase == Clocktype::Intermission ==> g.tick(now).clock.phase
            == Clocktype::Intermission,
{
}

/// A jam that is started begins at its full length, with the tag cleared,
/// in the ledger's current place, which has the moment as its start. No jam
/// is added to the ledger but by a jam that ran out before. Starting a jam
/// changes no allowance, out of halftime as little as out of any other
/// phase.
pub proof fn lemma_start_jam_begins_a_jam(g: GameView, now: nat)
    requires
        g.valid(),
        now >= g.clock.last_update,
    ensures
        g.start_jam(now).clock.phase == Clocktype::Jam,
        g.start_jam(now).home == g.home,
        g.start_jam(now).away == g.away,
        g.start_jam(now).ledger.len() == g.tick(now).ledger.len(),
        g.start_jam(now).second_period_start == g.tick(now).second_period_start,
        g.tick(now).clock.phase != Clocktype::Jam ==> {
            &&& g.start_jam(now).clock.phase_clock == crate::clock::JAM_NANOS
            &&& g.start_jam(now).tag == ActiveTimeout::NoTimeout
            &&& g.start_jam(now).current().start == Some(now)
            &&& g.start_jam(now).current().end == g.tick(now).current().end
        },
        g.tick(now).clock.phase == Clocktype::Jam ==> g.start_jam(now) == g.tick(now),
{
    lemma_time_keeps_allowances(g, now);
}

/// A team timeout is granted to a team that has one left, in every phase.
/// It costs the team exactly one timeout and sets the tag to that team's
/// timeout; the team's timeout begins on the clock, but in an intermission,
/// where the clock stays. A team that has none left is not granted one and
/// loses nothing: the tag is set to an official timeout, which begins on the
/// clock, but in an intermission, where the clock stays. The other team's
/// timeouts and both teams' reviews stay as they were.
pub proof fn lemma_team_timeout_spends_one(g: GameView, team: Team, other: Team, now: nat)
    requires
        g.valid(),
        now >= g.clock.last_update,
        other != team,
    ensures
        g.team_timeout_granted(team, now) == (g.side(team).timeouts > 0),
        g.team_timeout_granted(team, now) ==> {
            &&& g.team_timeout(team, now).side(team).timeouts + 1 == g.side(team).timeouts
            &&& g.team_timeout(team, now).tag == ActiveTimeout::TeamTimeout(team)
            &&& g.team_timeout(team, now).clock.phase == if g.stop_jam(now).clock.phase
                == Clocktype::Intermission {
                Clocktype::Intermission
            } else {
                Clocktype::TeamTimeout
            }
        },
        !g.team_timeout_granted(team, now) ==> {
            &&& g.team_timeout(team, now).side(team).timeouts == g.side(team).timeouts
            &&& g.team_timeout(team, now).tag == ActiveTimeout::OfficialTimeout
            &&& g.team_timeout(team, now).clock.phase == if g.stop_jam(now).clock.phase
                == Clocktype::Intermission {
                Clocktype::Intermission
            } else {
                Clocktype::OtherTimeout
            }
        },
        g.team_timeout(team, now).side(other).timeouts == g.side(other).timeouts,
        g.team_timeout(team, now).home.reviews == g.home.reviews,
        g.team_timeout(team, now).away.reviews == g.away.reviews,
{
    lemma_time_keeps_allowances(g, now);
}

/// An official review is granted to a team that has one left, in every
/// phase. It costs the team exactly one review and sets the tag to that
/// team's review. A team that has none left is not granted one and loses
/// nothing: the tag is set to an official timeout. Either way an official
/// timeout begins on the clock, but in an intermission, where the clock
/// stays. The other team's reviews and both teams' timeouts stay as they
/// were.
pub proof fn lemma_official_review_spends_one(g: GameView, team: Team, other: Team, now: nat)
    requires
        g.valid(),
        now >= g.clock.last_update,
        other != team,
    ensures
        g.official_review_granted(team, now) == (g.side(team).reviews > 0),
        g.official_review_granted(team, now) ==> {
            &&& g.official_review(team, now).side(team).reviews + 1 == g.side(team).reviews
            &&& g.official_review(team, now).tag == ActiveTimeout::Review(team)
        },
        !g.official_review_granted(team, now) ==> {
            &&& g.official_review(team, now).side(team).reviews == g.side(team).reviews
            &&& g.official_review(team, now).tag == ActiveTimeout::OfficialTimeout
        },
        g.official_review(team, now).clock.phase == if g.stop_jam(now).clock.phase
            == Clocktype::Intermission {
            Clocktype::Intermission
        } else {
            Clocktype::OtherTimeout
        },
        g.official_review(team, now).side(other).reviews == g.side(other).reviews,
        g.official_review(team, now).home.timeouts == g.home.timeouts,
        g.official_review(team, now).away.timeouts == g.away.timeouts,
{
    lemma_time_keeps_allowances(g, now);
}

/// An official timeout costs no team anything. It sets the tag to an
/// official timeout, which begins on the clock, but in an intermission,
/// where the clock stays.
pub proof fn lemma_official_timeout_spends_nothing(g: GameView, now: nat)
    requires
        g.valid(),
        now >= g.clock.last_update,
    ensures
        g.official_timeout(now).home == g.home,
        g.official_timeout(now).away == g.away,
        g.official_timeout(now).tag == ActiveTimeout::OfficialTimeout,
        g.official_timeout(now).clock.phase == if g.stop_jam(now).clock.phase
            == Clocktype::Intermission {
            Clocktype::Intermission
        } else {
            Clocktype::OtherTimeout
        },
{
    lemma_time_keeps_allowances(g, now);
}

/// A team that has lost its review has none left, whatever it had. Nothing
/// else changes.
pub proof fn lemma_review_lost_leaves_none(g: GameView, team: Team, other: Team)
    requires
        other != team,
    ensures
        g.review_lost(team).side(team).reviews == 0,
        g.review_lost(team).side(other) == g.side(other),
        g.review_lost(team).side(team).timeouts == g.side(team).timeouts,
        g.review_lost(team).clock == g.clock,
        g.review_lost(team).tag == g.tag,
        g.review_lost(team).ledger == g.ledger,
{
}

/// Something that happens to a bout.
pub enum Command {
    /// Time passes.
    Tick,
    /// The operator gives a command.
    Update(UpdateCommand),
    /// A penalty is recorded for the skater of a team who wears a number.
    Penalty(Team, Seq<char>, char),
    /// The current jam's ledger is written over.
    Write(JamView),
}

/// A command and the moment it is given.
pub struct Step {
    pub command: Command,
    pub at: nat,
}

impl GameView {
    /// The bout after one step.
    pub open spec fn step(self, step: Step) -> GameView {
        match step.command {
            Command::Tick => self.tick(step.at),
            Command::Update(command) => self.updated(command, step.at),
            Command::Penalty(team, number, code) => self.penalty(team, number, code),
            Command::Write(jam) => self.with_current(jam),
        }
    }

    /// The bout after the steps, one after the other.
    pub open spec fn run(self, steps: Seq<Step>) -> GameView
        decreases steps.len(),
    {
        if steps.len() == 0 {
            self
        } else {
            self.run(steps.drop_last()).step(steps.last())
        }
    }

    /// Whether the step can be taken: it is given at a moment that a clock
    /// can hold and not before the clock's last update, and a ledger that it
    /// writes is one on which
    /// no jammer is lead who has lost lead.
    pub open spec fn admits(self, step: Step) -> bool {
        &&& self.clock.last_update <= step.at <= u64::MAX
        &&& step.command matches Command::Write(jam) ==> jam.valid()
    }

    /// Every step can be taken when its turn comes.
    pub open spec fn in_order(self, steps: Seq<Step>) -> bool
        decreases steps.len(),
    {
        steps.len() == 0 || (self.in_order(steps.drop_last()) && self.run(
            steps.drop_last(),
        ).admits(steps.last()))
    }

    /// How many of the steps are team timeouts of `team` that were granted.
    pub open spec fn timeouts_granted(self, steps: Seq<Step>, team: Team) -> nat
        decreases steps.len(),
    {
        if steps.len() == 0 {
            0
        } else {
            let before = self.run(steps.drop_last());
            let granted: nat = if steps.last().command == Command::Update(
                UpdateCommand::TeamTimeout(team),
            ) && before.team_timeout_granted(team, steps.last().at) {
                1
            } else {
                0
            };
            self.timeouts_granted(steps.drop_last(), team) + granted
        }
    }
}

/// One step leaves a valid bout valid. It costs a team a timeout where it
/// is that team's timeout and is granted, and changes the team's timeouts in
/// no other case.
pub proof fn lemma_step_spends_timeouts(g: GameView, step: Step, team: Team)
    requires
        g.valid(),
        g.admits(step),
    ensures
        g.step(step).valid(),
        g.step(step).side(team).timeouts + (if step.command == Command::Update(
            UpdateCommand::TeamTimeout(team),
        ) && g.team_timeout_granted(team, step.at) {
            1nat
        } else {
            0nat
        }) == g.side(team).timeouts,
{
    lemma_time_keeps_allowances(g, step.at);
    lemma_tick_keeps_valid(g, step.at);
    lemma_commands_keep_valid(g, team, step.at);
    match step.command {
        Command::Tick => {},
        Command::Update(command) => {
            match command {
                UpdateCommand::TeamTimeout(t) => {
                    lemma_commands_keep_valid(g, t, step.at);
                },
                UpdateCommand::OfficialReview(t) => {
                    lemma_commands_keep_valid(g, t, step.at);
                },
                UpdateCommand::ReviewLost(t) => {
                    lemma_edits_keep_valid(g, t, 0, Seq::empty(), 'A', g.current());
                },
                UpdateCommand::SetTime(seconds) => {
                    lemma_edits_keep_valid(
                        g,
                        team,
                        seconds as nat * 1_000_000_000,
                        Seq::empty(),
                        'A',
                        g.current(),
                    );
                },
                UpdateCommand::ScoreAdj(home, away) => {
                    lemma_jam_stays_valid(
                        g.current(),
                        team,
                        g.current().home,
                        home as int,
                        away as int,
                    );
                    lemma_edits_keep_valid(
                        g,
                        team,
                        0,
                        Seq::empty(),
                        'A',
                        g.current().score_adjusted(home as int, away as int),
                    );
                },
                UpdateCommand::StarPass(t) => {
                    lemma_side_stays_valid(
                        g.current().side(t),
                        JamCommand::Starpass(true),
                        true,
                        0,
                        0,
                        PenaltyType::Unknown,
                    );
                    lemma_edits_keep_valid(
                        g,
                        team,
                        0,
                        Seq::empty(),
                        'A',
                        g.current().with_side(t, g.current().side(t).with_starpass(true)),
                    );
                },
                _ => {},
            }
        },
        Command::Penalty(t, number, code) => {
            lemma_edits_keep_valid(g, t, 0, number, code, g.current());
        },
        Command::Write(jam) => {
            lemma_edits_keep_valid(g, team, 0, Seq::empty(), 'A', jam);
        },
    }
}

/// Whatever happens to a valid bout, it stays valid, and a team has left
/// the timeouts it had less those it was granted: each granted call costs
/// one, nothing else costs any, and none ever comes back. So a team is
/// granted no more than it had, three in a bout, and once it has been granted
/// that many every further call is turned into an official timeout.
pub proof fn lemma_timeouts_are_spent_once(g: GameView, steps: Seq<Step>, team: Team)
    requires
        g.valid(),
        g.in_order(steps),
    ensures
        g.run(steps).valid(),
        g.run(steps).side(team).timeouts + g.timeouts_granted(steps, team) == g.side(
            team,
        ).timeouts,
        g.timeouts_granted(steps, team) <= g.side(team).timeouts,
        g.timeouts_granted(steps, team) == g.side(team).timeouts ==> forall|now: nat|
            now >= g.run(steps).clock.last_update ==> !g.run(steps).team_timeout_granted(
                team,
                now,
            ),
    decreases steps.len(),
{
    if steps.len() > 0 {
        lemma_timeouts_are_spent_once(g, steps.drop_last(), team);
        lemma_step_spends_timeouts(g.run(steps.drop_last()), steps.last(), team);
    }
    let end = g.run(steps);
    assert forall|now: nat|
        now >= end.clock.last_update && end.side(team).timeouts
            == 0 implies !end.team_timeout_granted(team, now) by {
        lemma_time_keeps_allowances(end, now);
    }
}

/// When the first period ends, the second starts at the ledger's current
/// place and halftime begins. The jam that then begins is the first of the
/// second period: its number within the period is one. Where a jam was
/// played before, the ledger reports that place as jam one of period two.
pub proof fn lemma_jam_numbers_restart(g: GameView, end: nat, start: nat)
    requires
        g.valid(),
        g.clock.last_update <= end <= start <= u64::MAX,
        g.clock.period_number == 1,
        g.clock.phase != Clocktype::Intermission,
        g.tick(end).clock.phase == Clocktype::Intermission,
    ensures
        g.tick(end).tag == ActiveTimeout::Halftime,
        g.tick(end).second_period_start == g.tick(end).ledger.len() - 1,
        g.tick(end).jam_number() == 1,
        g.tick(end).start_jam(start).clock.phase == Clocktype::Jam,
        g.tick(end).start_jam(start).clock.period_number == 2,
        g.tick(end).start_jam(start).jam_number() == 1,
        g.tick(end).ledger.len() >= 2 ==> g.tick(end).start_jam(start).period_jam(
            g.tick(end).start_jam(start).ledger.len() - 1,
        ) == (2nat, 1nat),
{
    lemma_tick_keeps_valid(g, end);
}

/// The penalties of the jams before place `jams` of the ledger are the same
/// in two bouts whose ledgers are the same up to there and whose second
/// periods start at the same place.
pub proof fn lemma_penalties_of_front(a: GameView, b: GameView, team: Team, skater: int, jams: int)
    requires
        jams <= a.ledger.len(),
        jams <= b.ledger.len(),
        a.second_period_start == b.second_period_start,
        forall|j: int| 0 <= j < jams ==> a.ledger[j] == b.ledger[j],
    ensures
        a.penalties_upto(team, skater, jams) == b.penalties_upto(team, skater, jams),
    decreases jams,
{
    if jams > 0 {
        lemma_penalties_of_front(a, b, team, skater, jams - 1);
    }
}

/// A penalty that is recorded is reported for the period and the jam in
/// which it was recorded: it stands last among the skater's penalties, with
/// the current jam's period and its number within the period. Nobody else's
/// penalties change, nor the other team's.
pub proof fn lemma_penalty_is_attributed(
    g: GameView,
    team: Team,
    number: Seq<char>,
    code: char,
    skater: int,
    any_team: Team,
)
    requires
        g.valid(),
        g.knows(team, number),
        0 <= skater,
    ensures
        ({
            let place = roster::place_of(g.side(team).roster.skaters, number)->0;
            let after = g.penalty(team, number, code);
            let jam = g.period_jam(g.ledger.len() - 1);
            &&& 0 <= place < g.side(team).roster.skaters.len()
            &&& g.side(team).roster.skaters[place].number == number
            &&& jam.1 == g.jam_number()
            &&& after.penalties_of(team, place) == g.penalties_of(team, place).push(
                PenaltyView { period: jam.0, jam: jam.1, code: PenaltyType::spec_from_char(code) },
            )
            &&& (skater != place || any_team != team) ==> after.penalties_of(any_team, skater)
                == g.penalties_of(any_team, skater)
        }),
{
    let skaters = g.side(team).roster.skaters;
    roster::lemma_place_of(skaters, number);
    let place = roster::place_of(skaters, number)->0;
    assert(0 <= place < skaters.len() && skaters[place].number == number);
    let after = g.penalty(team, number, code);
    let last = g.ledger.len() - 1;
    let jam = g.period_jam(last);
    let entries = g.ledger[last].side(team).penalties;
    let entry = (place as usize, PenaltyType::spec_from_char(code));
    assert(after.ledger[last].side(team).penalties == entries.push(entry));
    assert(entries.push(entry).drop_last() =~= entries);
    lemma_penalties_of_front(g, after, team, place, last);
    lemma_penalties_of_front(g, after, any_team, skater, last);
    assert(after.penalties_of(team, place) =~= g.penalties_of(team, place).push(
        PenaltyView { period: jam.0, jam: jam.1, code: PenaltyType::spec_from_char(code) },
    ));
    assert(jam.1 == g.jam_number());
    if any_team != team {
        assert(after.ledger[last].side(any_team).penalties == g.ledger[last].side(
            any_team,
        ).penalties);
        assert(after.penalties_of(any_team, skater) == g.penalties_of(any_team, skater));
    } else if skater != place {
        assert(penalties_in_jam(entries.push(entry), skater, jam) == penalties_in_jam(
            entries,
            skater,
            jam,
        ));
        assert(after.penalties_of(any_team, skater) == g.penalties_of(any_team, skater));
    }
}

/// A jam that is closed changes nobody's penalties: the place that opens
/// for the next jam holds none.
pub proof fn lemma_closing_keeps_penalties(g: GameView, team: Team, skater: int, now: nat)
    requires
        g.valid(),
    ensures
        g.jam_closed(now).penalties_of(team, skater) == g.penalties_of(team, skater),
{
    let after = g.jam_closed(now);
    let last = g.ledger.len() - 1;
    lemma_penalties_of_front(g, after, team, skater, last);
    assert(after.ledger[last].side(team).penalties == g.ledger[last].side(team).penalties);
    assert(after.ledger[last + 1] == JamView::empty());
    assert(after.penalties_upto(team, skater, last + 2) == after.penalties_upto(
        team,
        skater,
        last + 1,
    ) + penalties_in_jam(
        after.ledger[last + 1].side(team).penalties,
        skater,
        after.period_jam(last + 1),
    ));
}

/// The state of a bout.
pub struct GameState {
    team1: TeamState,
    team2: TeamState,
    clock: Clock,
    tostate: ActiveTimeout,
    jams: Vec<JamState>,
    second_period_start: usize,
}

impl View for GameState {
    type V = GameView;

    closed spec fn view(&self) -> GameView {
        GameView {
            clock: self.clock@,
            tag: self.tostate,
            home: self.team1@,
            away: self.team2@,
            ledger: jam_views(self.jams@),
            second_period_start: self.second_period_start as nat,
        }
    }
}

impl GameState {
    /// The bout's state is valid.
    pub open spec fn wf(&self) -> bool {
        self@.valid()
    }

    /// A bout that begins `time_to_derby` from now, between the teams of
    /// the two rosters.
    pub fn new(roster1: roster::Team, roster2: roster::Team, time_to_derby: u64) -> (game:
        GameState)
        requires
            roster1.wf(),
            roster2.wf(),
        ensures
            game.wf(),
            game@ == GameView::initial(roster1@, roster2@, time_to_derby as nat),
    {
        let mut jams: Vec<JamState> = Vec::new();
        jams.push(JamState::default());
        proof {
            assert(roster1@.skaters.len() == roster1.skaters.len());
            assert(roster2@.skaters.len() == roster2.skaters.len());
        }
        let game = GameState {
            team1: TeamState::new(roster1),
            team2: TeamState::new(roster2),
            clock: Clock::with_countdown(time_to_derby),
            tostate: ActiveTimeout::PreGameCountdown,
            jams,
            second_period_start: 0,
        };
        assert(game@.ledger =~= seq![JamView::empty()]);
        game
    }

    /// The present moment on the bout's clock, never before the clock's
    /// last update.
    pub fn now(&self) -> (now: u64)
        ensures
            now >= self@.clock.last_update,
    {
        self.clock.now()
    }

    /// Both teams' points in the bout, capped.
    pub fn total_score(&self) -> (score: (u32, u32))
        ensures
            score.0 == capped(self@.total(Team::Home)),
            score.1 == capped(self@.total(Team::Away)),
    {
        let mut home: u32 = 0;
        let mut away: u32 = 0;
        let mut i: usize = 0;
        while i < self.jams.len()
            invariant
                i <= self.jams.len(),
                home == capped(self@.total_upto(Team::Home, i as int)),
                away == capped(self@.total_upto(Team::Away, i as int)),
            decreases self.jams.len() - i,
        {
            let score = self.jams[i].jam_score();
            home = home.saturating_add(score.0);
            away = away.saturating_add(score.1);
            i = i + 1;
        }
        (home, away)
    }

    /// Closes the current jam's ledger at `now`, opens the next and clears
    /// the tag.
    fn close_jam(&mut self, now: u64)
        requires
            old(self)@.ledger.len() >= 1,
        ensures
            final(self)@ == old(self)@.jam_closed(now as nat),
    {
        let last = self.jams.len() - 1;
        self.jams[last].endtime = Some(now);
        self.jams.push(JamState::default());
        self.tostate = ActiveTimeout::NoTimeout;
        assert(final(self)@.ledger =~= old(self)@.jam_closed(now as nat).ledger);
    }

    /// Gives both teams their reviews again where the tag says halftime.
    fn leave_halftime(&mut self)
        ensures
            final(self)@ == old(self)@.halftime_left(),
    {
        match self.tostate {
            ActiveTimeout::Halftime => {
                self.team1.reviews = TEAM_REVIEWS;
                self.team2.reviews = TEAM_REVIEWS;
            },
            _ => {},
        }
    }

    /// Does what follows when time has moved the clock out of `outgoing`.
    fn phase_changed(&mut self, outgoing: Clocktype, now: u64)
        requires
            old(self)@.ledger.len() >= 1,
        ensures
            final(self)@ == old(self)@.phase_changed(outgoing, now as nat),
    {
        match outgoing {
            Clocktype::Jam => {
                self.close_jam(now);
            },
            Clocktype::Intermission => {
                self.leave_halftime();
            },
            _ => {},
        }
        match self.clock.get_active_clock().0 {
            Clocktype::Intermission => {
                if self.clock.get_time().0 == 1 {
                    self.second_period_start = self.jams.len() - 1;
                    self.tostate = ActiveTimeout::Halftime;
                } else {
                    self.tostate = ActiveTimeout::NoTimeout;
                }
            },
            Clocktype::OtherTimeout => {
                self.tostate = ActiveTimeout::OfficialTimeout;
            },
            _ => {},
        }
    }

    /// Brings the bout up to the moment `now`.
    pub fn tick_at(&mut self, now: u64)
        requires
            old(self).wf(),
            now >= old(self)@.clock.last_update,
        ensures
            final(self).wf(),
            final(self)@ == old(self)@.tick(now as nat),
    {
        let outgoing = self.clock.get_active_clock().0;
        let changed = self.clock.reconcile(now);
        if changed {
            self.phase_changed(outgoing, now);
        }
        proof {
            lemma_tick_keeps_valid(old(self)@, now as nat);
        }
    }

    /// Stops a running jam at `now` without accounting for any time.
    fn halt_jam(&mut self, now: u64)
        requires
            old(self).wf(),
        ensures
            final(self)@ == old(self)@.jam_stopped(now as nat),
    {
        match self.clock.get_active_clock().0 {
            Clocktype::Jam => {
                self.clock.end_jam();
                self.close_jam(now);
            },
            _ => {},
        }
    }

    /// Brings the bout up to `now`, then begins a jam unless one is
    /// running.
    pub fn start_jam_at(&mut self, now: u64)
        requires
            old(self).wf(),
            now >= old(self)@.clock.last_update,
        ensures
            final(self).wf(),
            final(self)@ == old(self)@.start_jam(now as nat),
    {
        self.tick_at(now);
        match self.clock.get_active_clock().0 {
            Clocktype::Jam => {},
            _ => {
                self.clock.begin_jam();
                self.tostate = ActiveTimeout::NoTimeout;
                let last = self.jams.len() - 1;
                self.jams[last].starttime = Some(now);
                assert(final(self)@.ledger =~= old(self)@.start_jam(now as nat).ledger);
            },
        }
        proof {
            lemma_commands_keep_valid(old(self)@, Team::Home, now as nat);
        }
    }

    /// Brings the bout up to `now`, then stops the jam if one is running.
    pub fn stop_jam_at(&mut self, now: u64)
        requires
            old(self).wf(),
            now >= old(self)@.clock.last_update,
        ensures
            final(self).wf(),
            final(self)@ == old(self)@.stop_jam(now as nat),
    {
        self.tick_at(now);
        self.halt_jam(now);
        proof {
            lemma_commands_keep_valid(old(self)@, Team::Home, now as nat);
        }
    }

    /// Calls an official timeout at `now`. No allowance is spent.
    pub fn official_timeout_at(&mut self, now: u64)
        requires
            old(self).wf(),
            now >= old(self)@.clock.last_update,
        ensures
            final(self).wf(),
            final(self)@ == old(self)@.official_timeout(now as nat),
    {
        self.tick_at(now);
        self.halt_jam(now);
        self.tostate = ActiveTimeout::OfficialTimeout;
        self.clock.begin_other_timeout();
        proof {
            lemma_commands_keep_valid(old(self)@, Team::Home, now as nat);
        }
    }

    /// Calls a team timeout for `team` at `now` and tells whether it was
    /// granted.
    pub fn team_timeout_at(&mut self, team: Team, now: u64) -> (granted: bool)
        requires
            old(self).wf(),
            now >= old(self)@.clock.last_update,
        ensures
            final(self).wf(),
            final(self)@ == old(self)@.team_timeout(team, now as nat),
            granted == old(self)@.team_timeout_granted(team, now as nat),
    {
        self.tick_at(now);
        self.halt_jam(now);
        proof {
            lemma_commands_keep_valid(old(self)@, team, now as nat);
        }
        let left = match team {
            Team::Home => self.team1.timeouts,
            Team::Away => self.team2.timeouts,
        };
        if left > 0 {
            match team {
                Team::Home => {
                    self.team1.timeouts = left - 1;
                },
                Team::Away => {
                    self.team2.timeouts = left - 1;
                },
            }
            self.tostate = ActiveTimeout::TeamTimeout(team);
            self.clock.begin_team_timeout();
            true
        } else {
            self.tostate = ActiveTimeout::OfficialTimeout;
            self.clock.begin_other_timeout();
            false
        }
    }

    /// Asks for an official review for `team` at `now` and tells whether it
    /// was granted.
    pub fn official_review_at(&mut self, team: Team, now: u64) -> (granted: bool)
        requires
            old(self).wf(),
            now >= old(self)@.clock.last_update,
        ensures
            final(self).wf(),
            final(self)@ == old(self)@.official_review(team, now as nat),
            granted == old(self)@.official_review_granted(team, now as nat),
    {
        self.tick_at(now);
        self.halt_jam(now);
        proof {
            lemma_commands_keep_valid(old(self)@, team, now as nat);
        }
        let left = match team {
            Team::Home => self.team1.reviews,
            Team::Away => self.team2.reviews,
        };
        let granted = left > 0;
        if granted {
            match team {
                Team::Home => {
                    self.team1.reviews = left - 1;
                },
                Team::Away => {
                    self.team2.reviews = left - 1;
                },
            }
            self.tostate = ActiveTimeout::Review(team);
        } else {
            self.tostate = ActiveTimeout::OfficialTimeout;
        }
        self.clock.begin_other_timeout();
        granted
    }

    /// Reads the time and brings the bout up to it.
    pub fn tick(&mut self)
        requires
            old(self).wf(),
        ensures
            final(self).wf(),
            final(self)@.clock.last_update >= old(self)@.clock.last_update,
            final(self)@ == old(self)@.tick(final(self)@.clock.last_update),
    {
        let now = self.now();
        self.tick_at(now);
        proof {
            lemma_tick_keeps_valid(old(self)@, now as nat);
        }
    }

    /// Reads the time and does as `start_jam_at` at that moment.
    pub fn start_jam(&mut self)
        requires
            old(self).wf(),
        ensures
            final(self).wf(),
            final(self)@.clock.last_update >= old(self)@.clock.last_update,
            final(self)@ == old(self)@.start_jam(final(self)@.clock.last_update),
    {
        let now = self.now();
        self.start_jam_at(now);
        proof {
            lemma_commands_keep_valid(old(self)@, Team::Home, now as nat);
        }
    }

    /// Reads the time and does as `stop_jam_at` at that moment.
    pub fn stop_jam(&mut self)
        requires
            old(self).wf(),
        ensures
            final(self).wf(),
            final(self)@.clock.last_update >= old(self)@.clock.last_update,
            final(self)@ == old(self)@.stop_jam(final(self)@.clock.last_update),
    {
        let now = self.now();
        self.stop_jam_at(now);
        proof {
            lemma_commands_keep_valid(old(self)@, Team::Home, now as nat);
        }
    }

    /// Reads the time and does as `official_timeout_at` at that moment.
    pub fn official_timeout(&mut self)
        requires
            old(self).wf(),
        ensures
            final(self).wf(),
            final(self)@.clock.last_update >= old(self)@.clock.last_update,
            final(self)@ == old(self)@.official_timeout(final(self)@.clock.last_update),
    {
        let now = self.now();
        self.official_timeout_at(now);
        proof {
            lemma_commands_keep_valid(old(self)@, Team::Home, now as nat);
        }
    }

    /// Reads the time and does as `team_timeout_at` at that moment.
    pub fn team_timeout(&mut self, team: Team) -> (granted: bool)
        requires
            old(self).wf(),
        ensures
            final(self).wf(),
            final(self)@.clock.last_update >= old(self)@.clock.last_update,
            final(self)@ == old(self)@.team_timeout(team, final(self)@.clock.last_update),
            granted == old(self)@.team_timeout_granted(team, final(self)@.clock.last_update),
    {
        let now = self.now();
        proof {
            lemma_commands_keep_valid(old(self)@, team, now as nat);
        }
        self.team_timeout_at(team, now)
    }

    /// Reads the time and does as `official_review_at` at that moment.
    pub fn official_review(&mut self, team: Team) -> (granted: bool)
        requires
            old(self).wf(),
        ensures
            final(self).wf(),
            final(self)@.clock.last_update >= old(self)@.clock.last_update,
            final(self)@ == old(self)@.official_review(team, final(self)@.clock.last_update),
            granted == old(self)@.official_review_granted(team, final(self)@.clock.last_update),
    {
        let now = self.now();
        proof {
            lemma_commands_keep_valid(old(self)@, team, now as nat);
        }
        self.official_review_at(team, now)
    }

    /// Does what a command that takes no time says, and nothing for one
    /// that takes time.
    fn edit(&mut self, command: UpdateCommand)
        requires
            old(self).wf(),
        ensures
            final(self).wf(),
            final(self)@ =~= old(self)@.edited(command),
    {
        match command {
            UpdateCommand::ScoreAdj(home, away) => {
                self.cur_jam_mut().adj_score(home, away);
            },
            UpdateCommand::SetTime(seconds) => {
                self.set_time(seconds as u64 * 1_000_000_000);
            },
            UpdateCommand::StarPass(team) => {
                self.cur_jam_mut().team_mut(team).set_starpass(true);
            },
            UpdateCommand::ReviewLost(team) => {
                self.review_lost(team);
            },
            _ => {},
        }
    }

    /// Does as the command says, at the moment `now`.
    pub fn update_at(&mut self, command: UpdateCommand, now: u64)
        requires
            old(self).wf(),
            now >= old(self)@.clock.last_update,
        ensures
            final(self).wf(),
            final(self)@ =~= old(self)@.updated(command, now as nat),
    {
        match command {
            UpdateCommand::StartJam => {
                self.start_jam_at(now);
            },
            UpdateCommand::StopJam => {
                self.stop_jam_at(now);
            },
            UpdateCommand::OfficialTimeout => {
                self.official_timeout_at(now);
            },
            UpdateCommand::TeamTimeout(team) => {
                self.team_timeout_at(team, now);
            },
            UpdateCommand::OfficialReview(team) => {
                self.official_review_at(team, now);
            },
            _ => {
                self.edit(command);
            },
        }
    }

    /// Does as the command says, at the moment it reads the time; a command
    /// that takes no time is done without reading it.
    pub fn update(&mut self, command: UpdateCommand)
        requires
            old(self).wf(),
        ensures
            final(self).wf(),
            final(self)@.clock.last_update >= old(self)@.clock.last_update,
            final(self)@ =~= old(self)@.updated(command, final(self)@.clock.last_update),
    {
        match command {
            UpdateCommand::StartJam => {
                self.start_jam();
            },
            UpdateCommand::StopJam => {
                self.stop_jam();
            },
            UpdateCommand::OfficialTimeout => {
                self.official_timeout();
            },
            UpdateCommand::TeamTimeout(team) => {
                self.team_timeout(team);
            },
            UpdateCommand::OfficialReview(team) => {
                self.official_review(team);
            },
            _ => {
                self.edit(command);
            },
        }
    }

    /// Does as the command says on the side of `team` in the ledger of jam
    /// `jam`, the jams counted from one through the bout.
    pub fn jam_command(&mut self, jam: usize, team: Team, command: JamCommand)
        requires
            old(self).wf(),
            1 <= jam <= old(self)@.ledger.len(),
        ensures
            final(self).wf(),
            final(self)@ =~= old(self)@.with_jam(
                jam - 1,
                old(self)@.ledger[jam - 1].with_side(
                    team,
                    old(self)@.ledger[jam - 1].side(team).commanded(command),
                ),
            ),
    {
        self.get_jam_mut(jam).team_mut(team).command(command);
    }

    /// What the scoreboard shows, of a bout that has a clock to show.
    pub fn score_update(&self) -> (shown: ScoreUpdate)
        requires
            self.wf(),
            self@.has_shown_clock(),
        ensures
            shown.score_home == capped(self@.total(Team::Home)),
            shown.score_away == capped(self@.total(Team::Away)),
            shown.jamscore_home == capped(self@.shown_jam().home.score()),
            shown.jamscore_away == capped(self@.shown_jam().away.score()),
            shown.period == self@.clock.period_number,
            shown.gameclock == self@.clock.period_clock,
            shown.activeclock == self@.active_clock(),
            shown.timeouts_home == self@.home.timeouts,
            shown.timeouts_away == self@.away.timeouts,
            shown.reviews_home == self@.home.reviews,
            shown.reviews_away == self@.away.reviews,
    {
        let cur_jam = self.cur_jam();
        let jamscore = if cur_jam.starttime.is_some() {
            cur_jam.jam_score()
        } else {
            match self.prev_jam() {
                Some(prev_jam) => prev_jam.jam_score(),
                None => {
                    proof {
                        reveal_with_fuel(crate::jamstate::points_total, 1);
                        assert(JamView::empty().home.score() == 0);
                        assert(JamView::empty().away.score() == 0);
                    }
                    (0, 0)
                },
            }
        };
        let score = self.total_score();
        let (period, gameclock) = self.get_time();
        let timeouts = self.timeouts();
        let reviews = self.reviews();
        ScoreUpdate {
            score_home: score.0,
            score_away: score.1,
            jamscore_home: jamscore.0,
            jamscore_away: jamscore.1,
            period,
            gameclock,
            activeclock: self.get_active_clock(),
            timeouts_home: timeouts.0,
            timeouts_away: timeouts.1,
            reviews_home: reviews.0,
            reviews_away: reviews.1,
        }
    }

    /// The period number and the time left in the period.
    pub fn get_time(&self) -> (time: (u8, u64))
        ensures
            time.0 == self@.clock.period_number,
            time.1 == self@.clock.period_clock,
    {
        self.clock.get_time()
    }

    /// Sets the time left in the period.
    pub fn set_time(&mut self, time: u64)
        requires
            old(self).wf(),
        ensures
            final(self).wf(),
            final(self)@ == old(self)@.set_time(time as nat),
    {
        self.clock.set_time(time);
    }

    /// Takes from `team` the reviews it has left.
    pub fn review_lost(&mut self, team: Team)
        requires
            old(self).wf(),
        ensures
            final(self).wf(),
            final(self)@ == old(self)@.review_lost(team),
    {
        match team {
            Team::Home => {
                self.team1.reviews = 0;
            },
            Team::Away => {
                self.team2.reviews = 0;
            },
        }
    }

    /// Whether the bout has a clock to show. It has one but in an
    /// intermission during which a timeout or review was called.
    pub fn can_show(&self) -> (can: bool)
        ensures
            can == self@.has_shown_clock(),
    {
        match self.clock.get_active_clock().0 {
            Clocktype::Jam | Clocktype::Lineup => true,
            Clocktype::TeamTimeout => match self.tostate {
                ActiveTimeout::TeamTimeout(_) => true,
                _ => false,
            },
            Clocktype::OtherTimeout => match self.tostate {
                ActiveTimeout::OfficialTimeout | ActiveTimeout::Review(_) => true,
                _ => false,
            },
            Clocktype::Intermission => match self.tostate {
                ActiveTimeout::Halftime
                | ActiveTimeout::PreGameCountdown
                | ActiveTimeout::NoTimeout => true,
                _ => false,
            },
        }
    }

    /// The clock that is shown, of a bout that has one.
    pub fn get_active_clock(&self) -> (shown: ActiveClock)
        requires
            self.wf(),
            self@.has_shown_clock(),
        ensures
            shown == self@.active_clock(),
    {
        let (phase, time) = self.clock.get_active_clock();
        match phase {
            Clocktype::Jam => ActiveClock::Jam(self.jamnum(), time),
            Clocktype::Lineup => ActiveClock::Lineup(time),
            Clocktype::TeamTimeout => match self.tostate {
                ActiveTimeout::TeamTimeout(team) => ActiveClock::TeamTimeout(team, time),
                _ => ActiveClock::Idle,
            },
            Clocktype::OtherTimeout => match self.tostate {
                ActiveTimeout::Review(team) => ActiveClock::Review(team, time),
                _ => ActiveClock::OfficialTimeout(time),
            },
            Clocktype::Intermission => match self.tostate {
                ActiveTimeout::Halftime => ActiveClock::Halftime(time),
                ActiveTimeout::PreGameCountdown => ActiveClock::PreGameCountdown(time),
                _ => ActiveClock::Idle,
            },
        }
    }

    /// The current jam's number within its period, counted from one.
    pub fn jamnum(&self) -> (number: usize)
        requires
            self.wf(),
        ensures
            number == self@.jam_number(),
            number >= 1,
    {
        self.jams.len() - self.second_period_start
    }

    /// The period and the number within the period of the jam at place
    /// `jamidx` of the ledger.
    pub fn jamidx_to_periodjam(&self, jamidx: usize) -> (jam: (u8, usize))
        requires
            jamidx < self@.ledger.len(),
        ensures
            jam.0 == self@.period_jam(jamidx as int).0,
            jam.1 == self@.period_jam(jamidx as int).1,
    {
        let jams = self.jams.len();
        assert(jamidx < jams);
        if self.second_period_start == 0 || jamidx < self.second_period_start {
            (1, jamidx + 1)
        } else {
            (2, jamidx - self.second_period_start + 1)
        }
    }

    /// Records a penalty of code `code` for the skater of `team` who wears
    /// the number `skater`, on the current jam's ledger. Tells whether a
    /// skater wears the number; where none does, nothing is recorded.
    pub fn penalty(&mut self, team: Team, skater: &str, code: char) -> (recorded: bool)
        requires
            old(self).wf(),
        ensures
            final(self).wf(),
            final(self)@ =~= old(self)@.penalty(team, skater@, code),
            recorded == old(self)@.knows(team, skater@),
    {
        let place = match team {
            Team::Home => self.team1.roster.find(skater),
            Team::Away => self.team2.roster.find(skater),
        };
        match place {
            Some(place) => {
                let last = self.jams.len() - 1;
                let entry = (place, PenaltyType::from_char(code));
                match team {
                    Team::Home => {
                        self.jams[last].team1.penalties.push(entry);
                    },
                    Team::Away => {
                        self.jams[last].team2.penalties.push(entry);
                    },
                }
                assert(final(self)@.ledger =~= old(self)@.penalty(team, skater@, code).ledger);
                true
            },
            None => false,
        }
    }

    /// The penalties of the skater at place `skater` of the roster of
    /// `team`, in the order of the ledger.
    pub fn skater_penalties(&self, team: Team, skater: usize) -> (penalties: Vec<Penalty>)
        ensures
            penalty_views(penalties@) == self@.penalties_of(team, skater as int),
    {
        let mut penalties: Vec<Penalty> = Vec::new();
        let mut j: usize = 0;
        assert(penalty_views(penalties@) =~= Seq::empty());
        while j < self.jams.len()
            invariant
                j <= self.jams.len(),
                penalty_views(penalties@) == self@.penalties_upto(team, skater as int, j as int),
            decreases self.jams.len() - j,
        {
            let jam = self.jamidx_to_periodjam(j);
            let entries = &self.jams[j].team(team).penalties;
            let ghost before = penalty_views(penalties@);
            let mut k: usize = 0;
            assert(entries@.take(0) =~= Seq::empty());
            while k < entries.len()
                invariant
                    k <= entries.len(),
                    jam.0 == self@.period_jam(j as int).0,
                    jam.1 == self@.period_jam(j as int).1,
                    penalty_views(penalties@) == before + penalties_in_jam(
                        entries@.take(k as int),
                        skater as int,
                        self@.period_jam(j as int),
                    ),
                decreases entries.len() - k,
            {
                assert(entries@.take(k + 1).drop_last() =~= entries@.take(k as int));
                let entry = entries[k];
                if entry.0 == skater {
                    let ghost listed = penalty_views(penalties@);
                    let penalty = Penalty { period: jam.0, jam: jam.1, code: entry.1 };
                    penalties.push(penalty);
                    assert(penalty_views(penalties@) =~= listed.push(penalty@));
                }
                k = k + 1;
            }
            assert(entries@.take(k as int) =~= entries@);
            j = j + 1;
        }
        penalties
    }

    /// The penalties of the skaters of `team`: for each skater, in the
    /// order of the roster, the number and the skater's penalties in the
    /// order of the ledger, each with the period and jam it was recorded in.
    pub fn team_penalties(&self, team: Team) -> (table: Vec<(String, Vec<Penalty>)>)
        ensures
            table@.len() == self@.side(team).roster.skaters.len(),
            forall|i: int|
                0 <= i < table@.len() ==> (#[trigger] table@[i]).0@ == self@.side(
                    team,
                ).roster.skaters[i].number && penalty_views(table@[i].1@)
                    == self@.penalties_of(team, i),
    {
        let roster = self.roster(team);
        let mut table: Vec<(String, Vec<Penalty>)> = Vec::new();
        let mut i: usize = 0;
        while i < roster.skaters.len()
            invariant
                i <= roster.skaters.len(),
                roster@ == self@.side(team).roster,
                table@.len() == i,
                forall|s: int|
                    0 <= s < i ==> (#[trigger] table@[s]).0@ == roster@.skaters[s].number
                        && penalty_views(table@[s].1@) == self@.penalties_of(team, s),
            decreases roster.skaters.len() - i,
        {
            let number = roster.skaters[i].number.clone();
            let penalties = self.skater_penalties(team, i);
            table.push((number, penalties));
            i = i + 1;
        }
        table
    }

    /// The roster of `team`.
    pub fn roster(&self, team: Team) -> (roster: &roster::Team)
        ensures
            roster@ == self@.side(team).roster,
    {
        match team {
            Team::Home => &self.team1.roster,
            Team::Away => &self.team2.roster,
        }
    }

    /// The team timeouts that the home team and the away team have left.
    pub fn timeouts(&self) -> (left: (u8, u8))
        ensures
            left.0 == self@.home.timeouts,
            left.1 == self@.away.timeouts,
    {
        (self.team1.timeouts, self.team2.timeouts)
    }

    /// The official reviews that the home team and the away team have left.
    pub fn reviews(&self) -> (left: (u8, u8))
        ensures
            left.0 == self@.home.reviews,
            left.1 == self@.away.reviews,
    {
        (self.team1.reviews, self.team2.reviews)
    }

    /// The place in the ledger of the second period's first jam; zero as
    /// long as the first period has not ended.
    pub fn second_period_start(&self) -> (place: usize)
        ensures
            place == self@.second_period_start,
    {
        self.second_period_start
    }

    /// What the clock's timeout or intermission means.
    pub fn active_timeout(&self) -> (tag: ActiveTimeout)
        ensures
            tag == self@.tag,
    {
        self.tostate
    }

    /// The ledger of the current jam.
    pub fn cur_jam(&self) -> (jam: &JamState)
        requires
            self.wf(),
        ensures
            jam@ == self@.current(),
    {
        &self.jams[self.jams.len() - 1]
    }

    /// The ledger of the jam before the current one; none during the first
    /// jam.
    pub fn prev_jam(&self) -> (jam: Option<&JamState>)
        ensures
            match jam {
                Some(j) => self@.ledger.len() >= 2 && j@ == self@.ledger[self@.ledger.len() - 2],
                None => self@.ledger.len() < 2,
            },
    {
        let len = self.jams.len();
        if len >= 2 {
            Some(&self.jams[len - 2])
        } else {
            None
        }
    }

    /// The ledger of the current jam, to write on. What is written there is
    /// on the bout's ledger afterwards, and nothing else changes. The bout
    /// stays valid where what is written leaves no jammer lead who has lost
    /// lead.
    pub fn cur_jam_mut(&mut self) -> (jam: &mut JamState)
        requires
            old(self).wf(),
        ensures
            jam@ == old(self)@.current(),
            jam@.valid(),
            final(self)@ =~= old(self)@.with_current(final(jam)@),
            final(jam)@.valid() ==> final(self).wf(),
    {
        let last = self.jams.len() - 1;
        &mut self.jams[last]
    }

    /// The ledger of jam `i`, the jams counted from one through the bout.
    pub fn get_jam(&self, i: usize) -> (jam: &JamState)
        requires
            1 <= i <= self@.ledger.len(),
        ensures
            jam@ == self@.ledger[i - 1],
    {
        &self.jams[i - 1]
    }

    /// The ledger of jam `i`, the jams counted from one through the bout,
    /// to write on. What is written there is on the bout's ledger
    /// afterwards, and nothing else changes. The bout stays valid where what
    /// is written leaves no jammer lead who has lost lead.
    pub fn get_jam_mut(&mut self, i: usize) -> (jam: &mut JamState)
        requires
            old(self).wf(),
            1 <= i <= old(self)@.ledger.len(),
        ensures
            jam@ == old(self)@.ledger[i - 1],
            jam@.valid(),
            final(self)@ =~= old(self)@.with_jam(i - 1, final(jam)@),
            final(jam)@.valid() ==> final(self).wf(),
    {
        proof {
            let ghost before = self@;
            assert(before.ledger[i - 1].valid());
            assert forall|written: JamView| written.valid() implies (#[trigger] before.with_jam(
                i - 1,
                written,
            )).valid() by {
                lemma_writing_keeps_valid(before, i - 1, written);
            }
        }
        &mut self.jams[i - 1]
    }

    /// The ledgers of all jams, in their order.
    pub fn jams(&self) -> (jams: &[JamState])
        ensures
            jam_views(jams@) == self@.ledger,
    {
        self.jams.as_slice()
    }
}

} // verus!
