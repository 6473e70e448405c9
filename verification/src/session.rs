//! The decisions of the voter's and the administrator's sessions: which
//! phase the election is in, what a menu selection asks for, reading a
//! voter's choice of candidate, confirming the choices and casting the
//! ballot.

use vstd::prelude::*;
use crate::ballot::{
    add_candidate, candidate_appended, close_election, every_office_filled, is_fresh_ballot,
    name_taken, new_ballot_metadata, office_selected, open_election,
};
use crate::model::{Ballot, Candidate, ElectionMetadata, Vote};
use crate::text::{decimal, law_parse_reads_decimal, lowercase, parsed_i8, parse_i8, push_decimal, str_eq, to_lowercase, NumberError};

verus! {

/// The phase an election's status puts it in.
#[derive(Debug, Clone, Copy, PartialEq, Eq, Structural)]
pub enum Phase {
    /// The status is `open`: ballots are accepted.
    Open,
    /// The status is `closed`: ballots are not accepted.
    Closed,
    /// Any other status.
    Unknown,
}

/// The phase of the status `status`.
pub open spec fn phase_of(status: Seq<char>) -> Phase {
    if status == "open"@ {
        Phase::Open
    } else if status == "closed"@ {
        Phase::Closed
    } else {
        Phase::Unknown
    }
}

/// The phase that the election status `status` denotes.
pub fn election_phase(status: &str) -> (p: Phase)
    ensures
        p == phase_of(status@),
{
    if str_eq(status, "open") {
        Phase::Open
    } else if str_eq(status, "closed") {
        Phase::Closed
    } else {
        Phase::Unknown
    }
}

/// What an administrator's menu selection asks for.
#[derive(Debug, Clone, Copy, PartialEq, Eq, Structural)]
pub enum AdminCommand {
    RegisterVoters,
    OpenElection,
    CloseElection,
    AddCandidate,
    TallyVotes,
    CreateBallot,
    EndSession,
    Invalid,
}

/// The command that `selection` picks from the menu of an open election
/// (`1` register voters, `2` close, `3` new ballot) or of a closed one (`1`
/// register voters, `2` open, `3` add a candidate, `4` tally, `5` new
/// ballot); an empty selection ends the session.
pub open spec fn command_of(open: bool, selection: Seq<char>) -> AdminCommand {
    if selection == "1"@ {
        AdminCommand::RegisterVoters
    } else if selection == "2"@ {
        if open {
            AdminCommand::CloseElection
        } else {
            AdminCommand::OpenElection
        }
    } else if selection == "3"@ {
        if open {
            AdminCommand::CreateBallot
        } else {
            AdminCommand::AddCandidate
        }
    } else if selection == "4"@ && !open {
        AdminCommand::TallyVotes
    } else if selection == "5"@ && !open {
        AdminCommand::CreateBallot
    } else if selection == ""@ {
        AdminCommand::EndSession
    } else {
        AdminCommand::Invalid
    }
}

/// The command that `selection` picks from the administrator's menu, which
/// depends on whether the election is open.
pub fn admin_command(phase: Phase, selection: &str) -> (c: AdminCommand)
    requires
        phase != Phase::Unknown,
    ensures
        c == command_of(phase == Phase::Open, selection@),
{
    let open = match phase {
        Phase::Open => true,
        _ => false,
    };
    if str_eq(selection, "1") {
        AdminCommand::RegisterVoters
    } else if str_eq(selection, "2") {
        if open {
            AdminCommand::CloseElection
        } else {
            AdminCommand::OpenElection
        }
    } else if str_eq(selection, "3") {
        if open {
            AdminCommand::CreateBallot
        } else {
            AdminCommand::AddCandidate
        }
    } else if str_eq(selection, "4") && !open {
        AdminCommand::TallyVotes
    } else if str_eq(selection, "5") && !open {
        AdminCommand::CreateBallot
    } else if str_eq(selection, "") {
        AdminCommand::EndSession
    } else {
        AdminCommand::Invalid
    }
}

/// What the outside reports of one command of the administrator's session.
pub enum AdminEvent {
    /// The command's outside work was done, or it needs none.
    Completed,
    /// The command's outside work failed.
    Failed,
    /// The candidate to add: name, party and the office selection.
    CandidateEntered { name: String, party: String, selection: String },
}

/// The metadata that one pass of the administrator's session saves, or
/// that the session stops.
pub enum AdminNext {
    /// Save this metadata and show the menu again.
    Save(ElectionMetadata),
    /// End the session without saving.
    Stop,
}

/// `saved` is `loaded` with the status `closed`.
pub open spec fn closed_from(loaded: ElectionMetadata, saved: ElectionMetadata) -> bool {
    &&& saved.status@ == "closed"@
    &&& saved.presidential_candidates == loaded.presidential_candidates
    &&& saved.senate_candidates == loaded.senate_candidates
    &&& saved.judicial_candidates == loaded.judicial_candidates
    &&& saved.total_votes == loaded.total_votes
}

/// `saved` is `loaded` with the status `open` when every office has a
/// candidate, and `loaded` itself otherwise.
pub open spec fn opened_from(loaded: ElectionMetadata, saved: ElectionMetadata) -> bool {
    if every_office_filled(loaded) {
        &&& saved.status@ == "open"@
        &&& saved.presidential_candidates == loaded.presidential_candidates
        &&& saved.senate_candidates == loaded.senate_candidates
        &&& saved.judicial_candidates == loaded.judicial_candidates
        &&& saved.total_votes == loaded.total_votes
    } else {
        saved == loaded
    }
}

/// `saved` is `loaded` with the candidate `name` of party `party` added to
/// the office that `selection` chooses, when no candidate of that name
/// (ignoring case) is on the ballot and the selection chooses an office;
/// `loaded` itself otherwise.
pub open spec fn candidate_added_from(
    loaded: ElectionMetadata,
    saved: ElectionMetadata,
    name: Seq<char>,
    party: Seq<char>,
    selection: Seq<char>,
) -> bool {
    if !name_taken(loaded, name) && office_selected(selection) is Some {
        candidate_appended(loaded, saved, office_selected(selection)->0, name, party)
    } else {
        saved == loaded
    }
}

/// The metadata `saved` that one pass of the administrator's session keeps
/// after `command`, from the metadata `loaded` at the start of the pass: a
/// failed command keeps `loaded`; closing sets the status `closed`; opening
/// sets it `open` when every office has a candidate; adding a candidate adds
/// the entered one; a new ballot is closed and empty; any other command
/// keeps `loaded`.
pub open spec fn pass_effect(
    command: AdminCommand,
    loaded: ElectionMetadata,
    event: AdminEvent,
    saved: ElectionMetadata,
) -> bool {
    match event {
        AdminEvent::Failed => saved == loaded,
        AdminEvent::CandidateEntered { name, party, selection } => if command
            == AdminCommand::AddCandidate {
            candidate_added_from(loaded, saved, name@, party@, selection@)
        } else {
            saved == loaded
        },
        AdminEvent::Completed => if command == AdminCommand::CloseElection {
            closed_from(loaded, saved)
        } else if command == AdminCommand::OpenElection {
            opened_from(loaded, saved)
        } else if command == AdminCommand::CreateBallot {
            is_fresh_ballot(saved)
        } else {
            saved == loaded
        },
    }
}

/// One pass of the administrator's session after `command`: a tally or an
/// empty selection ends the session without saving; any other command gives
/// the metadata to save, computed from the metadata loaded at the start of
/// the pass and what the outside reports.
pub fn admin_pass(command: AdminCommand, loaded: ElectionMetadata, event: AdminEvent) -> (r: AdminNext)
    ensures
        r is Stop <==> (command == AdminCommand::TallyVotes || command == AdminCommand::EndSession),
        r matches AdminNext::Save(m) ==> pass_effect(command, loaded, event, m),
{
    if command == AdminCommand::TallyVotes || command == AdminCommand::EndSession {
        return AdminNext::Stop;
    }
    let mut m = loaded;
    match event {
        AdminEvent::Failed => AdminNext::Save(m),
        AdminEvent::CandidateEntered { name, party, selection } => {
            if command == AdminCommand::AddCandidate {
                add_candidate(&mut m, name.as_str(), party.as_str(), selection.as_str());
            }
            AdminNext::Save(m)
        },
        AdminEvent::Completed => {
            if command == AdminCommand::CloseElection {
                close_election(&mut m);
                AdminNext::Save(m)
            } else if command == AdminCommand::OpenElection {
                open_election(&mut m);
                AdminNext::Save(m)
            } else if command == AdminCommand::CreateBallot {
                AdminNext::Save(new_ballot_metadata())
            } else {
                AdminNext::Save(m)
            }
        },
    }
}

/// A pass of the session while the election is open leaves the metadata as
/// it was loaded, closes the election, or starts a new empty ballot: no
/// candidate is added, the election is not opened and no votes are counted.
pub proof fn law_open_election_pass(
    loaded: ElectionMetadata,
    selection: Seq<char>,
    event: AdminEvent,
    saved: ElectionMetadata,
)
    requires
        pass_effect(command_of(true, selection), loaded, event, saved),
    ensures
        saved == loaded || closed_from(loaded, saved) || is_fresh_ballot(saved),
{
}

/// A pass of the session while the election is closed opens it only through
/// the selection `2`, and only when every office has a candidate.
pub proof fn law_closed_election_pass(
    loaded: ElectionMetadata,
    selection: Seq<char>,
    event: AdminEvent,
    saved: ElectionMetadata,
)
    requires
        loaded.status@ == "closed"@,
        pass_effect(command_of(false, selection), loaded, event, saved),
        saved.status@ == "open"@,
    ensures
        selection == "2"@,
        command_of(false, selection) == AdminCommand::OpenElection,
        every_office_filled(loaded),
{
    reveal_strlit("open");
    reveal_strlit("closed");
    assert("open"@ != "closed"@) by {
        assert("open"@.len() != "closed"@.len());
    }
}

/// While the election is open, the menu cannot open it, add a candidate or
/// tally the votes; so a pass of the session saves the loaded metadata, the
/// closed election, or a new ballot.
pub proof fn law_open_election_menu(selection: Seq<char>)
    ensures
        command_of(true, selection) != AdminCommand::OpenElection,
        command_of(true, selection) != AdminCommand::AddCandidate,
        command_of(true, selection) != AdminCommand::TallyVotes,
{
}

/// While the election is closed, the menu cannot close it; the only way to
/// open it is the selection `2`.
pub proof fn law_closed_election_menu(selection: Seq<char>)
    ensures
        command_of(false, selection) != AdminCommand::CloseElection,
        command_of(false, selection) == AdminCommand::OpenElection ==> selection == "2"@,
{
}

/// The administrator's two menus, selection by selection: `1` registers
/// voters whether the election is open or closed; while it is open `2`
/// closes it and `3` starts a new ballot; while it is closed `2` opens it,
/// `3` adds a candidate, `4` tallies the votes and `5` starts a new ballot;
/// an empty selection ends the session; `4` and `5` do nothing while the
/// election is open.
pub proof fn law_admin_menus(open: bool)
    ensures
        command_of(open, "1"@) == AdminCommand::RegisterVoters,
        command_of(true, "2"@) == AdminCommand::CloseElection,
        command_of(true, "3"@) == AdminCommand::CreateBallot,
        command_of(true, "4"@) == AdminCommand::Invalid,
        command_of(true, "5"@) == AdminCommand::Invalid,
        command_of(false, "2"@) == AdminCommand::OpenElection,
        command_of(false, "3"@) == AdminCommand::AddCandidate,
        command_of(false, "4"@) == AdminCommand::TallyVotes,
        command_of(false, "5"@) == AdminCommand::CreateBallot,
        command_of(open, ""@) == AdminCommand::EndSession,
{
    reveal_strlit("1");
    reveal_strlit("2");
    reveal_strlit("3");
    reveal_strlit("4");
    reveal_strlit("5");
    reveal_strlit("");
    assert("2"@ != "1"@) by { assert("2"@[0] != "1"@[0]); }
    assert("3"@ != "1"@) by { assert("3"@[0] != "1"@[0]); }
    assert("3"@ != "2"@) by { assert("3"@[0] != "2"@[0]); }
    assert("4"@ != "1"@) by { assert("4"@[0] != "1"@[0]); }
    assert("4"@ != "2"@) by { assert("4"@[0] != "2"@[0]); }
    assert("4"@ != "3"@) by { assert("4"@[0] != "3"@[0]); }
    assert("5"@ != "1"@) by { assert("5"@[0] != "1"@[0]); }
    assert("5"@ != "2"@) by { assert("5"@[0] != "2"@[0]); }
    assert("5"@ != "3"@) by { assert("5"@[0] != "3"@[0]); }
    assert("5"@ != "4"@) by { assert("5"@[0] != "4"@[0]); }
    assert("4"@ != ""@) by { assert("4"@.len() != ""@.len()); }
    assert("5"@ != ""@) by { assert("5"@.len() != ""@.len()); }
    assert(""@ != "1"@) by { assert(""@.len() != "1"@.len()); }
    assert(""@ != "2"@) by { assert(""@.len() != "2"@.len()); }
    assert(""@ != "3"@) by { assert(""@.len() != "3"@.len()); }
    assert(""@ != "4"@) by { assert(""@.len() != "4"@.len()); }
    assert(""@ != "5"@) by { assert(""@.len() != "5"@.len()); }
}

/// A voter's answer to whether their choices are correct.
#[derive(Debug, Clone, Copy, PartialEq, Eq, Structural)]
pub enum Confirmation {
    Yes,
    No,
    Invalid,
}

/// The answer that the lowercased response `answer` gives: `y` or `n`.
pub open spec fn confirmation_of_answer(answer: Seq<char>) -> Confirmation {
    if answer == "y"@ {
        Confirmation::Yes
    } else if answer == "n"@ {
        Confirmation::No
    } else {
        Confirmation::Invalid
    }
}

/// The answer that `response` gives, ignoring case: `y` or `n`.
pub open spec fn confirmation_of(response: Seq<char>) -> Confirmation {
    confirmation_of_answer(lowercase(response))
}

/// Reads a lowercased answer to whether the choices are correct.
pub fn read_confirmation(answer: &str) -> (c: Confirmation)
    ensures
        c == confirmation_of_answer(answer@),
{
    if str_eq(answer, "y") {
        Confirmation::Yes
    } else if str_eq(answer, "n") {
        Confirmation::No
    } else {
        Confirmation::Invalid
    }
}

/// Reads a voter's answer to whether their choices are correct.
pub fn confirm_choices(response: &str) -> (c: Confirmation)
    ensures
        c == confirmation_of(response@),
{
    let answer = to_lowercase(response);
    read_confirmation(answer.as_str())
}

/// Where a voter's session stands.
#[derive(Debug, Clone, Copy, PartialEq, Eq, Structural)]
pub enum VoterStep {
    /// Nothing is known yet; the election's phase comes first.
    Start,
    /// The voter is checking in with their name and date of birth.
    CheckingIn,
    /// The voter is choosing a candidate for each office.
    Choosing,
    /// The voter is asked to confirm these choices.
    Confirming(Vote),
    /// The ballot with these choices is being cast.
    Casting(Vote),
    /// The session is over.
    Done,
}

/// What the voter's session learns from the outside.
#[derive(Debug, Clone, Copy, PartialEq, Eq, Structural)]
pub enum VoterEvent {
    /// The phase of the election.
    Phase(Phase),
    /// Whether the checked-in voter is eligible.
    Eligible(bool),
    /// The choices for the three offices, or `None` when choosing failed.
    Chosen(Option<Vote>),
    /// The voter's answer to whether the choices are correct.
    Answer(Confirmation),
    /// Whether the ballot was cast.
    Cast(bool),
}

/// What the voter's session asks to be done.
#[derive(Debug, Clone, Copy, PartialEq, Eq, Structural)]
pub enum VoterAction {
    /// Check the voter in and judge their eligibility.
    CheckIn,
    /// Report that the election is closed; the session ends.
    ReportClosed,
    /// End the session.
    End,
    /// Present the candidates of every office and read the choices.
    PresentCandidates,
    /// Show these choices and ask the voter to confirm them.
    AskConfirmation(Vote),
    /// Cast a ballot with these choices.
    CastBallot(Vote),
    /// Mark the voter's record as voted; the session ends.
    MarkVoted,
}

/// One step of the voter's session: an open election checks the voter in, a
/// closed one is reported, any other ends the session; an ineligible voter's
/// session ends; an eligible voter chooses, confirms, and on `y` the ballot
/// is cast; a cast ballot marks the voter as voted and ends the session; a
/// failed choice is made again, `n` goes back to choosing, any other answer
/// and a failed cast ask again. An event that does not fit the step ends the
/// session.
pub open spec fn voter_step(step: VoterStep, event: VoterEvent) -> (VoterStep, VoterAction) {
    match (step, event) {
        (VoterStep::Start, VoterEvent::Phase(Phase::Open)) => (VoterStep::CheckingIn, VoterAction::CheckIn),
        (VoterStep::Start, VoterEvent::Phase(Phase::Closed)) => (VoterStep::Done, VoterAction::ReportClosed),
        (VoterStep::CheckingIn, VoterEvent::Eligible(true)) => (VoterStep::Choosing, VoterAction::PresentCandidates),
        (VoterStep::Choosing, VoterEvent::Chosen(Some(v))) => (VoterStep::Confirming(v), VoterAction::AskConfirmation(v)),
        (VoterStep::Choosing, VoterEvent::Chosen(None)) => (VoterStep::Choosing, VoterAction::PresentCandidates),
        (VoterStep::Confirming(v), VoterEvent::Answer(Confirmation::Yes)) => (VoterStep::Casting(v), VoterAction::CastBallot(v)),
        (VoterStep::Confirming(v), VoterEvent::Answer(Confirmation::No)) => (VoterStep::Choosing, VoterAction::PresentCandidates),
        (VoterStep::Confirming(v), VoterEvent::Answer(Confirmation::Invalid)) => (VoterStep::Confirming(v), VoterAction::AskConfirmation(v)),
        (VoterStep::Casting(v), VoterEvent::Cast(true)) => (VoterStep::Done, VoterAction::MarkVoted),
        (VoterStep::Casting(v), VoterEvent::Cast(false)) => (VoterStep::Confirming(v), VoterAction::AskConfirmation(v)),
        _ => (VoterStep::Done, VoterAction::End),
    }
}

/// Takes one step of the voter's session.
pub fn voter_session_step(step: VoterStep, event: VoterEvent) -> (r: (VoterStep, VoterAction))
    ensures
        r == voter_step(step, event),
        r.1 matches VoterAction::CastBallot(v) ==> step == VoterStep::Confirming(v) && event
            == VoterEvent::Answer(Confirmation::Yes),
        r.1 == VoterAction::MarkVoted <==> (step is Casting && event == VoterEvent::Cast(true)),
        r.1 == VoterAction::MarkVoted ==> r.0 == VoterStep::Done,
        step == VoterStep::Done ==> r == (VoterStep::Done, VoterAction::End),
        step == VoterStep::CheckingIn && event == VoterEvent::Eligible(false) ==> r.1 == VoterAction::End,
{
    match (step, event) {
        (VoterStep::Start, VoterEvent::Phase(Phase::Open)) => (VoterStep::CheckingIn, VoterAction::CheckIn),
        (VoterStep::Start, VoterEvent::Phase(Phase::Closed)) => (VoterStep::Done, VoterAction::ReportClosed),
        (VoterStep::CheckingIn, VoterEvent::Eligible(true)) => (VoterStep::Choosing, VoterAction::PresentCandidates),
        (VoterStep::Choosing, VoterEvent::Chosen(Some(v))) => (VoterStep::Confirming(v), VoterAction::AskConfirmation(v)),
        (VoterStep::Choosing, VoterEvent::Chosen(None)) => (VoterStep::Choosing, VoterAction::PresentCandidates),
        (VoterStep::Confirming(v), VoterEvent::Answer(Confirmation::Yes)) => (VoterStep::Casting(v), VoterAction::CastBallot(v)),
        (VoterStep::Confirming(_), VoterEvent::Answer(Confirmation::No)) => (VoterStep::Choosing, VoterAction::PresentCandidates),
        (VoterStep::Confirming(v), VoterEvent::Answer(Confirmation::Invalid)) => (VoterStep::Confirming(v), VoterAction::AskConfirmation(v)),
        (VoterStep::Casting(_), VoterEvent::Cast(true)) => (VoterStep::Done, VoterAction::MarkVoted),
        (VoterStep::Casting(v), VoterEvent::Cast(false)) => (VoterStep::Confirming(v), VoterAction::AskConfirmation(v)),
        _ => (VoterStep::Done, VoterAction::End),
    }
}

/// The actions of a voter's session that runs from `step` through `events`.
pub open spec fn voter_actions(step: VoterStep, events: Seq<VoterEvent>) -> Seq<VoterAction>
    decreases events.len(),
{
    if events.len() == 0 {
        Seq::empty()
    } else {
        let (next, action) = voter_step(step, events[0]);
        seq![action] + voter_actions(next, events.skip(1))
    }
}

/// The number of times `actions` marks the voter as voted.
pub open spec fn marks_voted(actions: Seq<VoterAction>) -> nat
    decreases actions.len(),
{
    if actions.len() == 0 {
        0
    } else {
        (if actions[0] == VoterAction::MarkVoted {
            1nat
        } else {
            0nat
        }) + marks_voted(actions.skip(1))
    }
}

/// The first action of a run is that of its first step, and the rest is the
/// run from the next step.
proof fn lemma_voter_actions_unfold(step: VoterStep, events: Seq<VoterEvent>)
    requires
        events.len() > 0,
    ensures
        voter_actions(step, events).len() == events.len(),
        voter_actions(step, events)[0] == voter_step(step, events[0]).1,
        voter_actions(step, events).skip(1) == voter_actions(voter_step(step, events[0]).0, events.skip(1)),
    decreases events.len(),
{
    lemma_voter_actions_len(step, events);
    let (next, action) = voter_step(step, events[0]);
    assert(voter_actions(step, events).skip(1) =~= voter_actions(next, events.skip(1)));
}

/// A run has one action per event.
proof fn lemma_voter_actions_len(step: VoterStep, events: Seq<VoterEvent>)
    ensures
        voter_actions(step, events).len() == events.len(),
    decreases events.len(),
{
    if events.len() > 0 {
        lemma_voter_actions_len(voter_step(step, events[0]).0, events.skip(1));
    }
}

/// A run marks the voter at most once, and not at all once the session is
/// over.
proof fn lemma_marks_at_most_once(step: VoterStep, events: Seq<VoterEvent>)
    ensures
        marks_voted(voter_actions(step, events)) <= if step == VoterStep::Done {
            0nat
        } else {
            1nat
        },
    decreases events.len(),
{
    if events.len() > 0 {
        lemma_voter_actions_unfold(step, events);
        let next = voter_step(step, events[0]).0;
        lemma_marks_at_most_once(next, events.skip(1));
    }
}

/// However the outside answers, a voter's session marks the voter as voted
/// at most once: one session casts at most one ballot that counts, and each
/// ballot that is cast marks the voter (see [`voter_session_step`]).
pub proof fn law_session_marks_at_most_once(events: Seq<VoterEvent>)
    ensures
        marks_voted(voter_actions(VoterStep::Start, events)) <= 1,
{
    lemma_marks_at_most_once(VoterStep::Start, events);
}

/// The steps before a voter's eligibility is known, and the end.
pub open spec fn before_eligibility(step: VoterStep) -> bool {
    step == VoterStep::Start || step == VoterStep::CheckingIn || step == VoterStep::Done
}

/// From a step before eligibility is known, a ballot is cast only after the
/// voter was found eligible.
proof fn lemma_cast_after_eligible(step: VoterStep, events: Seq<VoterEvent>, i: int)
    requires
        before_eligibility(step),
        0 <= i < events.len(),
        voter_actions(step, events)[i] is CastBallot,
    ensures
        exists|j: int| 0 <= j < i && events[j] == VoterEvent::Eligible(true),
    decreases events.len(),
{
    lemma_voter_actions_unfold(step, events);
    let next = voter_step(step, events[0]).0;
    if i > 0 {
        assert(voter_actions(step, events)[i] == voter_actions(step, events).skip(1)[i - 1]);
        if before_eligibility(next) {
            lemma_cast_after_eligible(next, events.skip(1), i - 1);
            let j = choose|j: int| 0 <= j < i - 1 && events.skip(1)[j] == VoterEvent::Eligible(true);
            assert(events[j + 1] == VoterEvent::Eligible(true));
        } else {
            assert(events[0] == VoterEvent::Eligible(true));
        }
    }
}

/// A voter's session casts a ballot only after the voter was found
/// eligible.
pub proof fn law_cast_needs_eligibility(events: Seq<VoterEvent>, i: int)
    requires
        0 <= i < events.len(),
        voter_actions(VoterStep::Start, events)[i] is CastBallot,
    ensures
        exists|j: int| 0 <= j < i && events[j] == VoterEvent::Eligible(true),
{
    lemma_cast_after_eligible(VoterStep::Start, events, i);
}

/// The menu line for the candidate `c` at position `k`, counting from one.
pub open spec fn menu_line(k: nat, c: Candidate) -> Seq<char> {
    decimal(k) + ". "@ + c.name@ + "\tParty: "@ + c.party@
}

/// The menu of `candidates`: one line per candidate, numbered from one.
pub fn candidate_menu(candidates: &Vec<Candidate>) -> (lines: Vec<String>)
    requires
        candidates@.len() <= u32::MAX,
    ensures
        lines@.len() == candidates@.len(),
        forall|k: int| 0 <= k < lines@.len() ==> (#[trigger] lines@[k])@ == menu_line((k + 1) as nat, candidates@[k]),
{
    let mut lines: Vec<String> = Vec::new();
    let n = candidates.len();
    for i in 0..n
        invariant
            n == candidates@.len(),
            n <= u32::MAX,
            lines@.len() == i,
            forall|k: int| 0 <= k < i ==> (#[trigger] lines@[k])@ == menu_line((k + 1) as nat, candidates@[k]),
    {
        let mut line = String::new();
        push_decimal(&mut line, (i + 1) as u32);
        line.append(". ");
        line.append(candidates[i].name.as_str());
        line.append("\tParty: ");
        line.append(candidates[i].party.as_str());
        lines.push(line);
    }
    lines
}

/// What a voter's entry `input` selects from a list of `n` candidates
/// numbered from one: the chosen position counting from zero, `None` when
/// the number is out of range, or why the entry is not a number.
pub open spec fn selection_of(input: Seq<char>, n: nat) -> Result<Option<i8>, NumberError> {
    match parsed_i8(input) {
        Err(e) => Err(e),
        Ok(p) => if 1 <= p <= n {
            Ok(Some((p - 1) as i8))
        } else {
            Ok(None)
        },
    }
}

/// Reads a voter's entry for a list of candidates numbered from one: a
/// number outside the list, `-128` included, selects nothing.
pub fn present_candidates(candidates: &Vec<Candidate>, input: &str) -> (r: Result<Option<i8>, NumberError>)
    requires
        candidates@.len() <= 127,
    ensures
        r == selection_of(input@, candidates@.len()),
        r matches Ok(Some(v)) ==> 0 <= v < candidates@.len(),
{
    let counter: i16 = candidates.len() as i16;
    let vote: i16 = (parse_i8(input)? as i16) - 1;
    if vote >= 0 && vote <= counter - 1 {
        Ok(Some(vote as i8))
    } else {
        Ok(None)
    }
}

/// A voter who enters the number that the menu shows beside a candidate
/// (see [`menu_line`]) chooses that candidate: for every list of up to 127
/// candidates, the entry `k`, for `k` from one to the list's length, selects
/// position `k - 1`.
pub proof fn law_menu_number_selects_candidate(k: nat, n: nat)
    requires
        1 <= k <= n <= 127,
    ensures
        selection_of(decimal(k), n) == Ok::<Option<i8>, NumberError>(Some((k - 1) as i8)),
{
    law_parse_reads_decimal(k);
}

/// An entry that is the number of no candidate, zero or one past the end of
/// the list or beyond, selects nothing.
pub proof fn law_number_outside_menu_selects_nothing(k: nat, n: nat)
    requires
        k <= 127,
        k == 0 || k > n,
    ensures
        selection_of(decimal(k), n) == Ok::<Option<i8>, NumberError>(None),
{
    law_parse_reads_decimal(k);
}

/// Whatever the entry, a number below one or above the list's length
/// selects nothing, any selection is a position of the list, and an entry
/// that is not a number is reported with the reason the number reader gives.
pub proof fn law_selection_stays_in_the_list(input: Seq<char>, n: nat)
    ensures
        parsed_i8(input) matches Ok(p) && (p < 1 || p > n) ==> selection_of(input, n) == Ok::<
            Option<i8>,
            NumberError,
        >(None),
        selection_of(input, n) matches Ok(Some(v)) ==> 0 <= v < n && parsed_i8(input) == Ok::<i8, NumberError>(
            (v + 1) as i8,
        ),
        parsed_i8(input) matches Err(e) ==> selection_of(input, n) == Err::<Option<i8>, NumberError>(e),
{
}

/// The text of a UUID of version 4 in hyphenated lowercase form: 36
/// characters, hyphens at positions 8, 13, 18 and 23, lowercase hexadecimal
/// digits elsewhere, the version digit `4` at position 14 and one of
/// `8`, `9`, `a`, `b` at position 19.
pub open spec fn is_uuid_v4_text(s: Seq<char>) -> bool {
    &&& s.len() == 36
    &&& forall|i: int|
        0 <= i < 36 ==> if i == 8 || i == 13 || i == 18 || i == 23 {
            #[trigger] s[i] == '-'
        } else {
            ('0' <= s[i] <= '9') || ('a' <= s[i] <= 'f')
        }
    &&& s[14] == '4'
    &&& s[19] == '8' || s[19] == '9' || s[19] == 'a' || s[19] == 'b'
}

/// Calls `Uuid::new_v4` and renders it with `to_string`. The identifier is
/// random; the contract states its form, which `uuid` documents and its
/// source shows (hyphenated lowercase hexadecimal, version and variant bits
/// set).
#[verifier::external_body]
fn new_ballot_id() -> (id: String)
    ensures
        is_uuid_v4_text(id@),
{
    uuid::Uuid::new_v4().to_string()
}

/// The form of a local time as `chrono` renders it: the date, a space, the
/// time of day (possibly with a fraction of a second), a space and the UTC
/// offset; so at least 26 characters, each a digit or one of `-`, `+`, `:`,
/// `.` and space.
pub open spec fn is_time_text(t: Seq<char>) -> bool {
    &&& t.len() >= 26
    &&& forall|i: int|
        0 <= i < t.len() ==> ('0' <= #[trigger] t[i] <= '9') || t[i] == '-' || t[i] == '+' || t[i]
            == ':' || t[i] == '.' || t[i] == ' '
}

/// Calls `chrono::Local::now()` and renders it with `to_string`. The time
/// is not a function of anything the library holds; the contract states the
/// form of the text, which `chrono`'s `Display` impls for `DateTime`,
/// `NaiveDate`, `NaiveTime` and `FixedOffset` show, and leaves the time
/// itself unsaid.
#[verifier::external_body]
pub(crate) fn current_timestamp() -> (t: String)
    ensures
        is_time_text(t@),
{
    chrono::Local::now().to_string()
}

/// A new ballot recording the voter's choices for the three offices, with a
/// fresh random identifier and the current time.
pub fn cast_ballot(president_vote: i8, senate_choice: i8, judge_choice: i8) -> (b: Ballot)
    ensures
        b.votes == (Vote { president: president_vote, senate: senate_choice, judiciary: judge_choice }),
        is_uuid_v4_text(b.vote_id@),
        is_time_text(b.timestamp@),
{
    let votes = Vote { president: president_vote, senate: senate_choice, judiciary: judge_choice };
    Ballot { vote_id: new_ballot_id(), timestamp: current_timestamp(), votes }
}

/// The file that holds the encrypted ballot with identifier `vote_id`.
pub fn vote_file_path(vote_id: &str) -> (p: String)
    ensures
        p@ == "./ballot/votes/"@ + vote_id@ + ".vote"@,
{
    let mut p = String::new();
    p.append("./ballot/votes/");
    p.append(vote_id);
    p.append(".vote");
    p
}

/// Whether the file called `file_name` holds a ballot: its name ends with
/// `.vote`.
pub fn is_vote_file(file_name: &str) -> (r: bool)
    ensures
        r == (file_name@.len() >= 5 && file_name@.skip(file_name@.len() - 5) == ".vote"@),
{
    let n = file_name.unicode_len();
    if n < 5 {
        return false;
    }
    let tail = file_name.substring_char(n - 5, n);
    assert(tail@ =~= file_name@.skip(file_name@.len() - 5));
    str_eq(tail, ".vote")
}

/// The name under which a voter is registered and looked up: the name as
/// entered, in lowercase.
pub fn voter_name(entered: &str) -> (r: String)
    ensures
        r@ == lowercase(entered@),
{
    to_lowercase(entered)
}

} // verus!
