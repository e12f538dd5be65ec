//! The ledger of one jam: for each team the points of its scoring trips, its
//! penalties and its jammer's flags; for the jam the moments it began and
//! ended. Commands write the ledger; the clock never does.

use crate::penaltycodes::PenaltyType;
use vstd::prelude::*;
use vstd::string::StringSliceAdditionalSpecFns;

verus! {

/// One of the two teams of a bout.
#[derive(Clone, Copy, PartialEq, Eq, Structural, Debug)]
pub enum Team {
    Home,
    Away,
}

impl Team {
    /// The team that a path names: the home team by `1`, the away team by
    /// `2`.
    pub open spec fn spec_from_param(param: Seq<u8>) -> Option<Team> {
        if param == seq![0x31u8] {
            Some(Team::Home)
        } else if param == seq![0x32u8] {
            Some(Team::Away)
        } else {
            None
        }
    }

    /// Reads the team from a part of a path; none for any text but `1` and
    /// `2`.
    pub fn from_param(param: &str) -> (team: Option<Team>)
        ensures
            team == Self::spec_from_param(param.spec_bytes()),
    {
        let bytes = param.as_bytes();
        if bytes.len() == 1 && bytes[0] == 0x31 {
            assert(bytes@ =~= seq![0x31u8]);
            Some(Team::Home)
        } else if bytes.len() == 1 && bytes[0] == 0x32 {
            assert(bytes@ =~= seq![0x32u8]);
            Some(Team::Away)
        } else {
            assert(bytes@ != seq![0x31u8] && bytes@ != seq![0x32u8]) by {
                if bytes@.len() == 1 {
                    assert(seq![0x31u8][0] == 0x31u8);
                    assert(seq![0x32u8][0] == 0x32u8);
                }
            }
            None
        }
    }
}

/// The sum of a sequence of trip points.
pub open spec fn points_total(points: Seq<u8>) -> nat
    decreases points.len(),
{
    if points.len() == 0 {
        0
    } else {
        points_total(points.drop_last()) + points.last() as nat
    }
}

/// A score as it is reported: the number itself, or the largest number a
/// `u32` holds where the score is beyond that.
pub open spec fn capped(score: nat) -> u32 {
    if score <= u32::MAX {
        score as u32
    } else {
        u32::MAX
    }
}

/// The points of one trip after `adj` is added: never below zero and never
/// above what a trip can hold.
pub open spec fn adjusted_points(points: u8, adj: int) -> u8 {
    if points + adj < 0 {
        0
    } else if points + adj > u8::MAX {
        u8::MAX
    } else {
        (points + adj) as u8
    }
}

/// The trips after `adj` is added to the running one, which is the last.
/// Where there is no trip yet, one begins at zero.
pub open spec fn adjusted_trips(trips: Seq<u8>, adj: int) -> Seq<u8> {
    if trips.len() == 0 {
        seq![adjusted_points(0, adj)]
    } else {
        trips.update(trips.len() - 1, adjusted_points(trips.last(), adj))
    }
}

/// A command to one team's side of a jam's ledger.
#[derive(Clone, Copy, PartialEq, Eq, Structural, Debug)]
pub enum JamCommand {
    Lead(bool),
    Lost(bool),
    Call(bool),
    Starpass(bool),
    /// The points of one scoring trip; see `TeamJamState::set_score`.
    ScoringTrip { trip: u8, points: u8 },
}

/// One team's side of a jam's ledger, as mathematics.
pub struct TeamJamView {
    pub jammer_points: Seq<u8>,
    pub pivot_points: Seq<u8>,
    /// Each entry is a skater's place in the team's roster and a penalty.
    pub penalties: Seq<(usize, PenaltyType)>,
    pub starpass: bool,
    pub lead: bool,
    pub lost: bool,
    pub call: bool,
}

impl TeamJamView {
    /// A side with nothing on it.
    pub open spec fn empty() -> TeamJamView {
        TeamJamView {
            jammer_points: Seq::empty(),
            pivot_points: Seq::empty(),
            penalties: Seq::empty(),
            starpass: false,
            lead: false,
            lost: false,
            call: false,
        }
    }

    /// A jammer who has lost lead is not lead.
    pub open spec fn valid(self) -> bool {
        self.lost ==> !self.lead
    }

    /// All the points on this side, the jammer's and the pivot's.
    pub open spec fn score(self) -> nat {
        points_total(self.jammer_points) + points_total(self.pivot_points)
    }

    /// `adj` is added to the running trip: the pivot's after a star pass, the
    /// jammer's before.
    pub open spec fn points_updated(self, adj: int) -> TeamJamView {
        if self.starpass {
            TeamJamView { pivot_points: adjusted_trips(self.pivot_points, adj), ..self }
        } else {
            TeamJamView { jammer_points: adjusted_trips(self.jammer_points, adj), ..self }
        }
    }

    /// The star pass is set. A jammer who passes the star while lead gives
    /// lead up and has lost it.
    pub open spec fn with_starpass(self, yes: bool) -> TeamJamView {
        if yes && self.lead {
            TeamJamView { starpass: yes, lead: false, lost: true, ..self }
        } else {
            TeamJamView { starpass: yes, ..self }
        }
    }

    /// Lead is set. A jammer who has lost lead stays without it, whatever
    /// is asked for.
    pub open spec fn with_lead(self, yes: bool) -> TeamJamView {
        TeamJamView { lead: yes && !self.lost, ..self }
    }

    /// Lost is set. A jammer who has lost lead is not lead.
    pub open spec fn with_lost(self, yes: bool) -> TeamJamView {
        if yes {
            TeamJamView { lost: yes, lead: false, ..self }
        } else {
            TeamJamView { lost: yes, ..self }
        }
    }

    /// The side after a command.
    pub open spec fn commanded(self, command: JamCommand) -> TeamJamView {
        match command {
            JamCommand::Lead(yes) => self.with_lead(yes),
            JamCommand::Lost(yes) => self.with_lost(yes),
            JamCommand::Call(yes) => TeamJamView { call: yes, ..self },
            JamCommand::Starpass(yes) => self.with_starpass(yes),
            JamCommand::ScoringTrip { trip, points } => self,
        }
    }

    /// One more penalty, for the skater at place `skater` of the roster.
    pub open spec fn with_penalty(self, skater: usize, code: PenaltyType) -> TeamJamView {
        TeamJamView { penalties: self.penalties.push((skater, code)), ..self }
    }
}

/// One team's side of a jam's ledger.
pub struct TeamJamState {
    pub lineup: [u32; 6],
    pub jammerpoints: Vec<u8>,
    pub pivotpoints: Vec<u8>,
    pub penalties: Vec<(usize, PenaltyType)>,
    pub starpass: bool,
    pub lead: bool,
    pub lost: bool,
    pub call: bool,
}

impl View for TeamJamState {
    type V = TeamJamView;

    open spec fn view(&self) -> TeamJamView {
        TeamJamView {
            jammer_points: self.jammerpoints@,
            pivot_points: self.pivotpoints@,
            penalties: self.penalties@,
            starpass: self.starpass,
            lead: self.lead,
            lost: self.lost,
            call: self.call,
        }
    }
}

/// Adds `adj` to the last of `trips`, after beginning a trip at zero where
/// there is none.
fn adjust_trips(trips: &mut Vec<u8>, adj: i8)
    ensures
        final(trips)@ == adjusted_trips(old(trips)@, adj as int),
{
    if trips.len() == 0 {
        trips.push(0);
    }
    let last = trips.len() - 1;
    let sum: i16 = trips[last] as i16 + adj as i16;
    let points: u8 = if sum < 0 {
        0
    } else if sum > 255 {
        255
    } else {
        sum as u8
    };
    trips.set(last, points);
    assert(final(trips)@ =~= adjusted_trips(old(trips)@, adj as int));
}

/// The sum of `trips`, capped.
fn trips_total(trips: &Vec<u8>) -> (total: u32)
    ensures
        total == capped(points_total(trips@)),
{
    let mut total: u32 = 0;
    let mut i: usize = 0;
    while i < trips.len()
        invariant
            i <= trips.len(),
            total == capped(points_total(trips@.take(i as int))),
        decreases trips.len() - i,
    {
        assert(trips@.take(i + 1).drop_last() =~= trips@.take(i as int));
        total = total.saturating_add(trips[i] as u32);
        i = i + 1;
    }
    assert(trips@.take(i as int) =~= trips@);
    total
}

impl TeamJamState {
    /// A side with nothing on it: no points, no penalties, no flag set, and
    /// nobody in the lineup, whose six places all hold zero.
    pub fn new() -> (side: TeamJamState)
        ensures
            side@ == TeamJamView::empty(),
            side@.valid(),
            side.lineup@ == seq![0u32, 0u32, 0u32, 0u32, 0u32, 0u32],
    {
        TeamJamState {
            lineup: [0, 0, 0, 0, 0, 0],
            jammerpoints: Vec::new(),
            pivotpoints: Vec::new(),
            penalties: Vec::new(),
            starpass: false,
            lead: false,
            lost: false,
            call: false,
        }
    }

    /// Adds `adj` to the running trip, which stays within what a trip can
    /// hold.
    pub fn update_points(&mut self, adj: i8)
        ensures
            final(self)@ == old(self)@.points_updated(adj as int),
            old(self)@.valid() ==> final(self)@.valid(),
            final(self).lineup == old(self).lineup,
    {
        if self.starpass {
            adjust_trips(&mut self.pivotpoints, adj);
        } else {
            adjust_trips(&mut self.jammerpoints, adj);
        }
    }

    /// Sets the star pass.
    pub fn set_starpass(&mut self, yes: bool)
        ensures
            final(self)@ == old(self)@.with_starpass(yes),
            old(self)@.valid() ==> final(self)@.valid(),
            final(self).lineup == old(self).lineup,
    {
        self.starpass = yes;
        if self.starpass && self.lead {
            self.lead = false;
            self.lost = true;
        }
    }

    /// Leaves the ledger as it is: the points of a single trip are not kept
    /// apart from the running one.
    pub fn set_score(&mut self, trip: u8, points: u8)
        ensures
            final(self)@ == old(self)@,
            final(self).lineup == old(self).lineup,
    {
    }

    /// Sets lead; a jammer who has lost lead stays without it.
    pub fn set_lead(&mut self, yes: bool)
        ensures
            final(self)@ == old(self)@.with_lead(yes),
            final(self)@.valid(),
            final(self).lineup == old(self).lineup,
    {
        self.lead = yes && !self.lost;
    }

    /// Sets call.
    pub fn set_call(&mut self, yes: bool)
        ensures
            final(self)@ == (TeamJamView { call: yes, ..old(self)@ }),
            old(self)@.valid() ==> final(self)@.valid(),
            final(self).lineup == old(self).lineup,
    {
        self.call = yes;
    }

    /// Sets lost; a jammer who has lost lead is not lead.
    pub fn set_lost(&mut self, yes: bool)
        ensures
            final(self)@ == old(self)@.with_lost(yes),
            final(self)@.valid(),
            final(self).lineup == old(self).lineup,
    {
        self.lost = yes;
        if self.lost {
            self.lead = false;
        }
    }

    /// Does as the command says.
    pub fn command(&mut self, command: JamCommand)
        ensures
            final(self)@ == old(self)@.commanded(command),
            old(self)@.valid() ==> final(self)@.valid(),
            final(self).lineup == old(self).lineup,
    {
        match command {
            JamCommand::Lead(yes) => self.set_lead(yes),
            JamCommand::Lost(yes) => self.set_lost(yes),
            JamCommand::Call(yes) => self.set_call(yes),
            JamCommand::Starpass(yes) => self.set_starpass(yes),
            JamCommand::ScoringTrip { trip, points } => self.set_score(trip, points),
        }
    }

    /// The side's points, capped.
    pub fn score(&self) -> (score: u32)
        ensures
            score == capped(self@.score()),
    {
        let jammer = trips_total(&self.jammerpoints);
        let pivot = trips_total(&self.pivotpoints);
        jammer.saturating_add(pivot)
    }
}

/// A jam's ledger, as mathematics.
pub struct JamView {
    pub home: TeamJamView,
    pub away: TeamJamView,
    /// The moment the jam began, once it has.
    pub start: Option<nat>,
    /// The moment the jam ended, once it has.
    pub end: Option<nat>,
}

impl JamView {
    /// The ledger of a jam that has not begun.
    pub open spec fn empty() -> JamView {
        JamView { home: TeamJamView::empty(), away: TeamJamView::empty(), start: None, end: None }
    }

    /// On neither side is a jammer lead who has lost lead.
    pub open spec fn valid(self) -> bool {
        self.home.valid() && self.away.valid()
    }

    /// The side of `team`.
    pub open spec fn side(self, team: Team) -> TeamJamView {
        match team {
            Team::Home => self.home,
            Team::Away => self.away,
        }
    }

    /// The ledger with the side of `team` replaced.
    pub open spec fn with_side(self, team: Team, side: TeamJamView) -> JamView {
        match team {
            Team::Home => JamView { home: side, ..self },
            Team::Away => JamView { away: side, ..self },
        }
    }

    /// Both teams' running trips adjusted.
    pub open spec fn score_adjusted(self, home_adj: int, away_adj: int) -> JamView {
        JamView {
            home: self.home.points_updated(home_adj),
            away: self.away.points_updated(away_adj),
            ..self
        }
    }
}

/// A jam's ledger.
pub struct JamState {
    pub team1: TeamJamState,
    pub team2: TeamJamState,
    pub starttime: Option<u64>,
    pub endtime: Option<u64>,
}

impl View for JamState {
    type V = JamView;

    open spec fn view(&self) -> JamView {
        JamView {
            home: self.team1@,
            away: self.team2@,
            start: match self.starttime {
                Some(at) => Some(at as nat),
                None => None,
            },
            end: match self.endtime {
                Some(at) => Some(at as nat),
                None => None,
            },
        }
    }
}

impl Default for JamState {
    fn default() -> (jam: JamState)
        ensures
            jam@ == JamView::empty(),
            jam@.valid(),
    {
        JamState {
            team1: TeamJamState::new(),
            team2: TeamJamState::new(),
            starttime: None,
            endtime: None,
        }
    }
}

impl JamState {
    /// The side of `team`.
    pub fn team(&self, team: Team) -> (side: &TeamJamState)
        ensures
            side@ == self@.side(team),
    {
        match team {
            Team::Home => &self.team1,
            Team::Away => &self.team2,
        }
    }

    /// The side of `team`, to write on. What is written there is on the
    /// ledger afterwards, and nothing else changes.
    pub fn team_mut(&mut self, team: Team) -> (side: &mut TeamJamState)
        ensures
            side@ == old(self)@.side(team),
            final(self)@ == old(self)@.with_side(team, final(side)@),
    {
        match team {
            Team::Home => &mut self.team1,
            Team::Away => &mut self.team2,
        }
    }

    /// Both teams' points in the jam, capped.
    pub fn jam_score(&self) -> (score: (u32, u32))
        ensures
            score.0 == capped(self@.home.score()),
            score.1 == capped(self@.away.score()),
    {
        (self.team1.score(), self.team2.score())
    }

    /// Adds `t1adj` to the home team's running trip and `t2adj` to the away
    /// team's.
    pub fn adj_score(&mut self, t1adj: i8, t2adj: i8)
        ensures
            final(self)@ == old(self)@.score_adjusted(t1adj as int, t2adj as int),
            old(self)@.valid() ==> final(self)@.valid(),
    {
        self.team1.update_points(t1adj);
        self.team2.update_points(t2adj);
    }
}

/// Whatever is written on a side on which no jammer is lead who has lost
/// lead, none is afterwards: not by a command, by points or by a penalty. A
/// side with nothing on it is such a side. After lead or lost is set the side
/// is such a side whatever it was, and lead is what was asked for where the
/// jammer has not lost it.
pub proof fn lemma_side_stays_valid(
    side: TeamJamView,
    command: JamCommand,
    yes: bool,
    adj: int,
    skater: usize,
    code: PenaltyType,
)
    ensures
        TeamJamView::empty().valid(),
        side.with_lead(yes).valid(),
        side.with_lost(yes).valid(),
        !side.lost ==> side.with_lead(yes).lead == yes,
        side.with_lead(yes).lost == side.lost,
        side.valid() ==> side.commanded(command).valid(),
        side.valid() ==> side.with_starpass(yes).valid(),
        side.valid() ==> side.points_updated(adj).valid(),
        side.valid() ==> side.with_penalty(skater, code).valid(),
{
}

/// A jam's ledger on which no jammer is lead who has lost lead stays one
/// when a side of that kind replaces one of its sides and when points are
/// added. The ledger of a jam that has not begun is one.
pub proof fn lemma_jam_stays_valid(
    jam: JamView,
    team: Team,
    side: TeamJamView,
    home_adj: int,
    away_adj: int,
)
    requires
        jam.valid(),
    ensures
        JamView::empty().valid(),
        jam.side(team).valid(),
        side.valid() ==> jam.with_side(team, side).valid(),
        jam.score_adjusted(home_adj, away_adj).valid(),
{
}

} // verus!
