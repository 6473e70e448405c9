use voting_machine::ballot::{
    add_candidate, candidate_check, candidate_name_taken, close_election, count_ballot,
    open_election, reset_votes, tally_fits_check, tally_votes, write_candidate, CandidateAddition,
};
use voting_machine::model::{Candidate, ElectionMetadata, Vote};
use voting_machine::samples::testing_ballot;

fn candidate(name: &str, party: &str, votes: u32) -> Candidate {
    Candidate { name: name.to_string(), party: party.to_string(), votes }
}

fn empty_metadata() -> ElectionMetadata {
    ElectionMetadata {
        status: "closed".to_string(),
        presidential_candidates: Vec::new(),
        senate_candidates: Vec::new(),
        judicial_candidates: Vec::new(),
        total_votes: 0,
    }
}

fn names(list: &Vec<Candidate>) -> Vec<String> {
    list.iter().map(|c| c.name.clone()).collect()
}

fn counts(list: &Vec<Candidate>) -> Vec<u32> {
    list.iter().map(|c| c.votes).collect()
}

#[test]
fn write_candidate_adds_to_the_named_office() {
    let mut m = empty_metadata();
    assert!(write_candidate(&mut m, "president", "Alice", "Blue"));
    assert!(write_candidate(&mut m, "senate", "Bob", "Red"));
    assert!(write_candidate(&mut m, "judge", "Carol", "Green"));
    assert!(write_candidate(&mut m, "president", "Dan", "Red"));
    assert_eq!(names(&m.presidential_candidates), vec!["Alice", "Dan"]);
    assert_eq!(names(&m.senate_candidates), vec!["Bob"]);
    assert_eq!(names(&m.judicial_candidates), vec!["Carol"]);
    assert_eq!(m.presidential_candidates[1].party, "Red");
    assert_eq!(m.presidential_candidates[1].votes, 0);
}

#[test]
fn write_candidate_ignores_an_unknown_office() {
    let mut m = empty_metadata();
    assert!(!write_candidate(&mut m, "mayor", "Alice", "Blue"));
    assert!(!write_candidate(&mut m, "President", "Alice", "Blue"));
    assert!(m.presidential_candidates.is_empty());
    assert!(m.senate_candidates.is_empty());
    assert!(m.judicial_candidates.is_empty());
}

#[test]
fn opening_needs_a_candidate_in_every_office() {
    let mut m = empty_metadata();
    write_candidate(&mut m, "president", "Alice", "Blue");
    write_candidate(&mut m, "senate", "Bob", "Red");
    assert!(!candidate_check(&m));
    assert!(!open_election(&mut m));
    assert_eq!(m.status, "closed");
    write_candidate(&mut m, "judge", "Carol", "Green");
    assert!(candidate_check(&m));
    assert!(open_election(&mut m));
    assert_eq!(m.status, "open");
    close_election(&mut m);
    assert_eq!(m.status, "closed");
    assert_eq!(names(&m.presidential_candidates), vec!["Alice"]);
}

#[test]
fn reset_votes_zeroes_every_count() {
    let mut m = empty_metadata();
    m.presidential_candidates.push(candidate("A", "x", 4));
    m.senate_candidates.push(candidate("B", "y", 2));
    m.judicial_candidates.push(candidate("C", "z", 9));
    m.total_votes = 7;
    reset_votes(&mut m);
    assert_eq!(counts(&m.presidential_candidates), vec![0]);
    assert_eq!(counts(&m.senate_candidates), vec![0]);
    assert_eq!(counts(&m.judicial_candidates), vec![0]);
    assert_eq!(m.total_votes, 7);
    assert_eq!(names(&m.judicial_candidates), vec!["C"]);
}

#[test]
fn count_ballot_adds_one_vote_per_office_and_skips_bad_choices() {
    let mut m = empty_metadata();
    testing_ballot(&mut m);
    count_ballot(&mut m, &Vote { president: 1, senate: -1, judiciary: 3 });
    assert_eq!(counts(&m.presidential_candidates), vec![0, 1, 0]);
    assert_eq!(counts(&m.senate_candidates), vec![0, 0, 0]);
    assert_eq!(counts(&m.judicial_candidates), vec![0, 0, 0]);
}

#[test]
fn tally_counts_each_ballot_afresh() {
    let mut m = empty_metadata();
    testing_ballot(&mut m);
    m.presidential_candidates[0].votes = 50;
    let ballots = vec![
        Vote { president: 0, senate: 2, judiciary: 1 },
        Vote { president: 0, senate: 1, judiciary: 1 },
        Vote { president: 2, senate: 2, judiciary: 7 },
        Vote { president: -3, senate: 2, judiciary: 0 },
    ];
    tally_votes(&mut m, &ballots);
    assert_eq!(counts(&m.presidential_candidates), vec![2, 0, 1]);
    assert_eq!(counts(&m.senate_candidates), vec![0, 1, 3]);
    assert_eq!(counts(&m.judicial_candidates), vec![1, 2, 0]);
    // a second tally of the same ballots gives the same counts
    tally_votes(&mut m, &ballots);
    assert_eq!(counts(&m.presidential_candidates), vec![2, 0, 1]);
    // the votes of an office add up to the ballots that pick one of its candidates
    let total: u32 = m.judicial_candidates.iter().map(|c| c.votes).sum();
    assert_eq!(total, 3);
}

#[test]
fn tally_of_no_ballots_is_all_zero() {
    let mut m = empty_metadata();
    testing_ballot(&mut m);
    m.senate_candidates[2].votes = 3;
    tally_votes(&mut m, &Vec::new());
    assert_eq!(counts(&m.senate_candidates), vec![0, 0, 0]);
}

#[test]
fn candidate_names_are_compared_ignoring_case() {
    let mut m = empty_metadata();
    testing_ballot(&mut m);
    assert!(candidate_name_taken(&m, "alice johnson"));
    assert!(candidate_name_taken(&m, "JOE ROGAN"));
    assert!(!candidate_name_taken(&m, "Joe"));
}

#[test]
fn add_candidate_refuses_a_duplicate_name() {
    let mut m = empty_metadata();
    testing_ballot(&mut m);
    assert_eq!(add_candidate(&mut m, "susan WILSON", "Any", "1"), CandidateAddition::DuplicateName);
    assert_eq!(m.presidential_candidates.len(), 3);
}

#[test]
fn add_candidate_needs_a_known_office() {
    let mut m = empty_metadata();
    assert_eq!(add_candidate(&mut m, "Zed", "Any", "4"), CandidateAddition::InvalidOffice);
    assert_eq!(add_candidate(&mut m, "Zed", "Any", ""), CandidateAddition::InvalidOffice);
    assert!(m.presidential_candidates.is_empty());
    assert!(m.senate_candidates.is_empty());
    assert!(m.judicial_candidates.is_empty());
}

#[test]
fn add_candidate_adds_to_the_selected_office() {
    let mut m = empty_metadata();
    assert_eq!(add_candidate(&mut m, "Zed", "Any", "2"), CandidateAddition::Added);
    assert_eq!(add_candidate(&mut m, "Yan", "Other", "3"), CandidateAddition::Added);
    assert_eq!(add_candidate(&mut m, "Xu", "Other", "1"), CandidateAddition::Added);
    assert_eq!(names(&m.senate_candidates), vec!["Zed"]);
    assert_eq!(names(&m.judicial_candidates), vec!["Yan"]);
    assert_eq!(names(&m.presidential_candidates), vec!["Xu"]);
    assert_eq!(add_candidate(&mut m, "zed", "Any", "1"), CandidateAddition::DuplicateName);
}

#[test]
fn testing_ballot_adds_three_candidates_per_office() {
    let mut m = empty_metadata();
    testing_ballot(&mut m);
    assert_eq!(names(&m.presidential_candidates), vec!["Alice Johnson", "Robert Smith", "Julia Davis"]);
    assert_eq!(names(&m.senate_candidates), vec!["Michael Brown", "Susan Wilson", "David Martinez"]);
    assert_eq!(names(&m.judicial_candidates), vec!["Emily Clark", "James Taylor", "Joe Rogan"]);
    assert_eq!(m.judicial_candidates[2].party, "Libertarian");
    assert_eq!(m.senate_candidates[0].party, "Green");
}

#[test]
fn tally_fits_for_ordinary_ballots() {
    let mut m = empty_metadata();
    testing_ballot(&mut m);
    let ballots = vec![
        Vote { president: 0, senate: 2, judiciary: 1 },
        Vote { president: 9, senate: -1, judiciary: 1 },
    ];
    assert!(tally_fits_check(&m, &ballots));
    assert!(tally_fits_check(&m, &Vec::new()));
    assert!(tally_fits_check(&empty_metadata(), &ballots));
}

#[test]
fn tally_ignores_the_counts_it_starts_from() {
    let ballots = vec![
        Vote { president: 1, senate: 0, judiciary: 2 },
        Vote { president: 1, senate: 2, judiciary: 2 },
    ];
    let mut a = empty_metadata();
    testing_ballot(&mut a);
    let mut b = empty_metadata();
    testing_ballot(&mut b);
    b.presidential_candidates[1].votes = 7;
    b.senate_candidates[0].votes = u32::MAX;
    tally_votes(&mut a, &ballots);
    tally_votes(&mut b, &ballots);
    assert_eq!(counts(&a.presidential_candidates), counts(&b.presidential_candidates));
    assert_eq!(counts(&a.senate_candidates), counts(&b.senate_candidates));
    assert_eq!(counts(&a.judicial_candidates), counts(&b.judicial_candidates));
    assert_eq!(counts(&b.presidential_candidates), vec![0, 2, 0]);
}
