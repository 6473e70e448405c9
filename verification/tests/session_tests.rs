use voting_machine::session::{is_vote_file, voter_name};
use voting_machine::eligibility::{decide_eligibility, register_voters_checked, registry_searchable};
use voting_machine::model::ElectionError;
use voting_machine::session::{
    admin_pass, read_confirmation, AdminEvent, voter_session_step, AdminNext, VoterAction, VoterEvent, VoterStep,
};
use voting_machine::eligibility::{
    eligibility, is_eligible, is_valid_dob, register_voters, Eligibility, Registration,
};
use voting_machine::model::{Candidate, Vote};
use voting_machine::session::{
    admin_command, candidate_menu, cast_ballot, confirm_choices, election_phase,
    present_candidates, vote_file_path, AdminCommand, Confirmation, Phase,
};
use voting_machine::text::{parse_i8, str_eq, NumberError};

fn rec(fields: &[&str]) -> Vec<String> {
    fields.iter().map(|f| f.to_string()).collect()
}

#[test]
fn date_of_birth_must_be_month_day_year() {
    assert_eq!(is_valid_dob("01/02/1990"), Ok(true));
    assert_eq!(is_valid_dob("12/31/2000"), Ok(true));
    assert_eq!(is_valid_dob("13/01/1990"), Ok(false));
    assert_eq!(is_valid_dob("00/10/1990"), Ok(false));
    assert_eq!(is_valid_dob("02/32/1990"), Ok(false));
    assert_eq!(is_valid_dob("2/3/1990"), Ok(false));
    assert_eq!(is_valid_dob("01/02/19900"), Ok(false));
    assert_eq!(is_valid_dob(""), Ok(false));
}

#[test]
fn unregistered_voter_is_not_eligible() {
    let r = vec![rec(&["ann lee", "01/02/1990", "0"])];
    assert_eq!(eligibility(&r, "ann lee", "01/02/1991"), Ok(Eligibility::NotRegistered));
    assert_eq!(is_eligible(&r, "bob", "01/02/1990"), Ok(false));
}

#[test]
fn registered_voter_who_has_not_voted_is_eligible() {
    let r = vec![rec(&["ann lee", "01/02/1990", "0"])];
    assert_eq!(eligibility(&r, "ann lee", "01/02/1990"), Ok(Eligibility::Eligible));
    assert_eq!(is_eligible(&r, "ann lee", "01/02/1990"), Ok(true));
}

#[test]
fn voter_who_voted_is_not_eligible() {
    let r = vec![rec(&["ann lee", "01/02/1990", "1"])];
    assert_eq!(eligibility(&r, "ann lee", "01/02/1990"), Ok(Eligibility::AlreadyVoted));
    assert_eq!(is_eligible(&r, "ann lee", "01/02/1990"), Ok(false));
}

#[test]
fn malformed_date_of_birth_is_not_eligible() {
    let r = vec![rec(&["ann lee", "1/2/1990", "0"])];
    assert_eq!(eligibility(&r, "ann lee", "1/2/1990"), Ok(Eligibility::InvalidDob));
}

#[test]
fn every_name_is_held_to_every_check() {
    let r = vec![rec(&["abcd123z", "01/01/1990", "1"])];
    assert_eq!(eligibility(&r, "abcd123z", "01/01/1990"), Ok(Eligibility::AlreadyVoted));
    assert_eq!(is_eligible(&r, "abcd123z", "01/01/1990"), Ok(false));
    let r2 = vec![rec(&["abcd123z", "1/2/1990", "0"])];
    assert_eq!(eligibility(&r2, "abcd123z", "1/2/1990"), Ok(Eligibility::InvalidDob));
}

#[test]
fn register_voters_lowercases_the_name() {
    let mut r: Vec<Vec<String>> = Vec::new();
    assert_eq!(register_voters(&mut r, "Ann LEE", "01/02/1990"), Ok(Registration::Added));
    assert_eq!(r, vec![rec(&["ann lee", "01/02/1990", "0"])]);
    assert_eq!(register_voters(&mut r, "ANN lee", "01/02/1990"), Ok(Registration::AlreadyRegistered));
    assert_eq!(register_voters(&mut r, "Bob", "1990-01-02"), Ok(Registration::InvalidDob));
    assert_eq!(r.len(), 1);
}

#[test]
fn phase_follows_the_status() {
    assert_eq!(election_phase("open"), Phase::Open);
    assert_eq!(election_phase("closed"), Phase::Closed);
    assert_eq!(election_phase("Open"), Phase::Unknown);
}

#[test]
fn admin_menu_depends_on_the_phase() {
    assert_eq!(admin_command(Phase::Open, "1"), AdminCommand::RegisterVoters);
    assert_eq!(admin_command(Phase::Open, "2"), AdminCommand::CloseElection);
    assert_eq!(admin_command(Phase::Open, "3"), AdminCommand::CreateBallot);
    assert_eq!(admin_command(Phase::Open, "4"), AdminCommand::Invalid);
    assert_eq!(admin_command(Phase::Open, ""), AdminCommand::EndSession);
    assert_eq!(admin_command(Phase::Closed, "2"), AdminCommand::OpenElection);
    assert_eq!(admin_command(Phase::Closed, "3"), AdminCommand::AddCandidate);
    assert_eq!(admin_command(Phase::Closed, "4"), AdminCommand::TallyVotes);
    assert_eq!(admin_command(Phase::Closed, "5"), AdminCommand::CreateBallot);
    assert_eq!(admin_command(Phase::Closed, "6"), AdminCommand::Invalid);
}

#[test]
fn confirmation_ignores_case() {
    assert_eq!(confirm_choices("Y"), Confirmation::Yes);
    assert_eq!(confirm_choices("y"), Confirmation::Yes);
    assert_eq!(confirm_choices("N"), Confirmation::No);
    assert_eq!(confirm_choices("yes"), Confirmation::Invalid);
}

fn cands() -> Vec<Candidate> {
    vec![
        Candidate { name: "Ann".to_string(), party: "Red".to_string(), votes: 0 },
        Candidate { name: "Ben".to_string(), party: "Blue".to_string(), votes: 0 },
    ]
}

#[test]
fn menu_numbers_candidates_from_one() {
    assert_eq!(candidate_menu(&cands()), vec!["1. Ann\tParty: Red".to_string(), "2. Ben\tParty: Blue".to_string()]);
}

#[test]
fn voter_entry_selects_a_candidate() {
    let c = cands();
    assert_eq!(present_candidates(&c, "1"), Ok(Some(0)));
    assert_eq!(present_candidates(&c, "+2"), Ok(Some(1)));
    assert_eq!(present_candidates(&c, "3"), Ok(None));
    assert_eq!(present_candidates(&c, "0"), Ok(None));
    assert_eq!(present_candidates(&c, "-5"), Ok(None));
    assert_eq!(present_candidates(&c, "x"), Err(NumberError::InvalidDigit));
    assert_eq!(present_candidates(&c, "-128"), Ok(None));
    assert_eq!(present_candidates(&c, "127"), Ok(None));
    assert_eq!(present_candidates(&c, "300"), Err(NumberError::TooLarge));
    assert_eq!(present_candidates(&c, ""), Err(NumberError::Empty));
}

fn std_kind(s: &str) -> Result<i8, NumberError> {
    match s.parse::<i8>() {
        Ok(v) => Ok(v),
        Err(e) => match e.kind() {
            std::num::IntErrorKind::Empty => Err(NumberError::Empty),
            std::num::IntErrorKind::InvalidDigit => Err(NumberError::InvalidDigit),
            std::num::IntErrorKind::PosOverflow => Err(NumberError::TooLarge),
            std::num::IntErrorKind::NegOverflow => Err(NumberError::TooSmall),
            _ => panic!("unexpected error kind"),
        },
    }
}

#[test]
fn parse_i8_reads_like_std() {
    for s in [
        "0", "7", "+7", "-7", "127", "-128", "128", "-129", "007", "", "+", "-", "1a", "a1",
        "999x", "-999x", "12 ", " 12", "1000", "+-1", "٣", "-0", "99", "-99",
    ] {
        assert_eq!(parse_i8(s), std_kind(s), "input {:?}", s);
    }
}

#[test]
fn str_eq_compares_contents() {
    assert!(str_eq("abc", "abc"));
    assert!(!str_eq("abc", "abd"));
    assert!(!str_eq("", "a"));
}

#[test]
fn cast_ballot_records_the_choices() {
    let b = cast_ballot(1, 0, 2);
    assert_eq!(b.votes, Vote { president: 1, senate: 0, judiciary: 2 });
    let id: Vec<char> = b.vote_id.chars().collect();
    assert_eq!(id.len(), 36);
    for (i, c) in id.iter().enumerate() {
        if i == 8 || i == 13 || i == 18 || i == 23 {
            assert_eq!(*c, '-');
        } else {
            assert!(c.is_ascii_hexdigit() && !c.is_ascii_uppercase());
        }
    }
    assert_eq!(id[14], '4');
    assert!(!b.timestamp.is_empty());
    let other = cast_ballot(1, 0, 2);
    assert_ne!(b.vote_id, other.vote_id);
}

#[test]
fn vote_file_lives_in_the_votes_folder() {
    assert_eq!(vote_file_path("abc"), "./ballot/votes/abc.vote");
}

#[test]
fn decide_eligibility_follows_the_order_of_checks() {
    assert_eq!(decide_eligibility(false, Err(ElectionError::Pattern), true), Ok(Eligibility::NotRegistered));
    assert_eq!(decide_eligibility(true, Err(ElectionError::Pattern), false), Err(ElectionError::Pattern));
    assert_eq!(decide_eligibility(true, Ok(false), false), Ok(Eligibility::InvalidDob));
    assert_eq!(decide_eligibility(true, Ok(true), true), Ok(Eligibility::AlreadyVoted));
    assert_eq!(decide_eligibility(true, Ok(true), false), Ok(Eligibility::Eligible));
}

#[test]
fn read_confirmation_takes_lowercased_answers() {
    assert_eq!(read_confirmation("y"), Confirmation::Yes);
    assert_eq!(read_confirmation("n"), Confirmation::No);
    assert_eq!(read_confirmation("Y"), Confirmation::Invalid);
    assert_eq!(read_confirmation(""), Confirmation::Invalid);
}

#[test]
fn registry_search_needs_names_and_matching_birth_dates() {
    let ok = vec![rec(&["ann", "01/02/1990", "0"]), rec(&["bob"])];
    assert!(registry_searchable(&ok, "ann"));
    assert!(!registry_searchable(&ok, "bob"));
    let empty_record = vec![Vec::new()];
    assert!(!registry_searchable(&empty_record, "ann"));
}

#[test]
fn checked_registration_refuses_an_unsearchable_registry() {
    let mut r = vec![rec(&["bob"])];
    assert_eq!(register_voters_checked(&mut r, "BOB", "01/02/1990"), None);
    assert_eq!(r, vec![rec(&["bob"])]);
    assert_eq!(register_voters_checked(&mut r, "Cy", "01/02/1990"), Some(Ok(Registration::Added)));
    assert_eq!(r[1], rec(&["cy", "01/02/1990", "0"]));
}

#[test]
fn voter_marked_as_voted_is_no_longer_eligible() {
    use_registry_and_check("ann lee", "01/02/1990", Eligibility::AlreadyVoted);
    use_registry_and_check("abcd123z", "01/02/1990", Eligibility::AlreadyVoted);
}

fn use_registry_and_check(name: &str, dob: &str, expected: Eligibility) {
    let mut r = vec![rec(&["bob", "03/04/1985", "0"]), rec(&[name, dob, "0"])];
    assert_eq!(eligibility(&r, name, dob), Ok(Eligibility::Eligible));
    let row = voting_machine::registry::get_voter_index(&r, name, dob);
    voting_machine::registry::change_to_voted(&mut r, row, name, dob);
    assert_eq!(eligibility(&r, name, dob), Ok(expected));
}

#[test]
fn voter_session_casts_once_then_marks_the_voter() {
    let v = Vote { president: 0, senate: 1, judiciary: 2 };
    let events = [
        VoterEvent::Phase(Phase::Open),
        VoterEvent::Eligible(true),
        VoterEvent::Chosen(None),
        VoterEvent::Chosen(Some(v)),
        VoterEvent::Answer(Confirmation::Invalid),
        VoterEvent::Answer(Confirmation::Yes),
        VoterEvent::Cast(false),
        VoterEvent::Answer(Confirmation::Yes),
        VoterEvent::Cast(true),
        VoterEvent::Answer(Confirmation::Yes),
    ];
    let expected = [
        VoterAction::CheckIn,
        VoterAction::PresentCandidates,
        VoterAction::PresentCandidates,
        VoterAction::AskConfirmation(v),
        VoterAction::AskConfirmation(v),
        VoterAction::CastBallot(v),
        VoterAction::AskConfirmation(v),
        VoterAction::CastBallot(v),
        VoterAction::MarkVoted,
        VoterAction::End,
    ];
    let mut step = VoterStep::Start;
    for (event, action) in events.iter().zip(expected.iter()) {
        let (next, got) = voter_session_step(step, *event);
        assert_eq!(got, *action);
        step = next;
    }
    assert_eq!(step, VoterStep::Done);
}

#[test]
fn voter_session_ends_for_ineligible_or_closed() {
    assert_eq!(voter_session_step(VoterStep::CheckingIn, VoterEvent::Eligible(false)), (VoterStep::Done, VoterAction::End));
    assert_eq!(voter_session_step(VoterStep::Start, VoterEvent::Phase(Phase::Closed)), (VoterStep::Done, VoterAction::ReportClosed));
    assert_eq!(voter_session_step(VoterStep::Start, VoterEvent::Phase(Phase::Unknown)), (VoterStep::Done, VoterAction::End));
    let v = Vote { president: 0, senate: 0, judiciary: 0 };
    assert_eq!(voter_session_step(VoterStep::Confirming(v), VoterEvent::Answer(Confirmation::No)), (VoterStep::Choosing, VoterAction::PresentCandidates));
}

fn meta(status: &str) -> voting_machine::model::ElectionMetadata {
    voting_machine::model::ElectionMetadata {
        status: status.to_string(),
        presidential_candidates: Vec::new(),
        senate_candidates: Vec::new(),
        judicial_candidates: Vec::new(),
        total_votes: 0,
    }
}

fn saved_status(next: AdminNext) -> Option<String> {
    match next {
        AdminNext::Save(m) => Some(m.status),
        AdminNext::Stop => None,
    }
}

fn with_candidates(status: &str) -> voting_machine::model::ElectionMetadata {
    let mut m = meta(status);
    for list in [&mut m.presidential_candidates, &mut m.senate_candidates, &mut m.judicial_candidates] {
        list.push(Candidate { name: "C".to_string(), party: "P".to_string(), votes: 0 });
    }
    m
}

fn entered(name: &str, selection: &str) -> AdminEvent {
    AdminEvent::CandidateEntered { name: name.to_string(), party: "Q".to_string(), selection: selection.to_string() }
}

fn saved(next: AdminNext) -> voting_machine::model::ElectionMetadata {
    match next {
        AdminNext::Save(m) => m,
        AdminNext::Stop => panic!("the session stopped"),
    }
}

#[test]
fn admin_pass_saves_what_each_command_leaves() {
    assert_eq!(saved_status(admin_pass(AdminCommand::CloseElection, meta("open"), AdminEvent::Completed)), Some("closed".to_string()));
    assert_eq!(saved_status(admin_pass(AdminCommand::CloseElection, meta("open"), AdminEvent::Failed)), Some("open".to_string()));
    assert_eq!(saved_status(admin_pass(AdminCommand::OpenElection, meta("closed"), AdminEvent::Completed)), Some("closed".to_string()));
    assert_eq!(saved_status(admin_pass(AdminCommand::OpenElection, with_candidates("closed"), AdminEvent::Completed)), Some("open".to_string()));
    assert_eq!(saved_status(admin_pass(AdminCommand::RegisterVoters, meta("open"), AdminEvent::Completed)), Some("open".to_string()));
    assert_eq!(saved_status(admin_pass(AdminCommand::TallyVotes, meta("closed"), AdminEvent::Completed)), None);
    assert_eq!(saved_status(admin_pass(AdminCommand::EndSession, meta("closed"), AdminEvent::Completed)), None);
    assert_eq!(saved_status(admin_pass(AdminCommand::Invalid, meta("closed"), AdminEvent::Completed)), Some("closed".to_string()));
    let fresh = saved(admin_pass(AdminCommand::CreateBallot, with_candidates("open"), AdminEvent::Completed));
    assert_eq!(fresh.status, "closed");
    assert!(fresh.presidential_candidates.is_empty() && fresh.senate_candidates.is_empty() && fresh.judicial_candidates.is_empty());
}

#[test]
fn admin_pass_adds_the_entered_candidate() {
    let m = saved(admin_pass(AdminCommand::AddCandidate, with_candidates("closed"), entered("Zed", "2")));
    assert_eq!(m.senate_candidates.len(), 2);
    assert_eq!(m.senate_candidates[1].name, "Zed");
    assert_eq!(m.senate_candidates[1].party, "Q");
    assert_eq!(m.presidential_candidates.len(), 1);
    let dup = saved(admin_pass(AdminCommand::AddCandidate, with_candidates("closed"), entered("c", "1")));
    assert_eq!(dup.presidential_candidates.len(), 1);
    let bad = saved(admin_pass(AdminCommand::AddCandidate, with_candidates("closed"), entered("Zed", "9")));
    assert_eq!(bad.judicial_candidates.len(), 1);
    let ignored = saved(admin_pass(AdminCommand::CloseElection, with_candidates("open"), entered("Zed", "1")));
    assert_eq!(ignored.status, "open");
    assert_eq!(ignored.presidential_candidates.len(), 1);
}

#[test]
fn timestamp_has_the_local_time_form() {
    let b = cast_ballot(0, 0, 0);
    assert!(b.timestamp.len() >= 26);
    assert!(b.timestamp.chars().all(|c| c.is_ascii_digit() || "-+:. ".contains(c)));
}

#[test]
fn vote_files_end_with_the_vote_extension() {
    assert!(is_vote_file("3f2a.vote"));
    assert!(is_vote_file(".vote"));
    assert!(!is_vote_file("vote"));
    assert!(!is_vote_file("3f2a.vote.bak"));
    assert!(!is_vote_file("metadata.json"));
}

#[test]
fn voter_names_are_taken_in_lowercase() {
    assert_eq!(voter_name("Ann LEE"), "ann lee");
    assert_eq!(voter_name("bob"), "bob");
}
