use voting_machine::model::{Candidate, ElectionMetadata, Vote};
use voting_machine::results::{declare_winners, leading_positions, show_winner, testing_tally_votes};
use voting_machine::samples::testing_ballot;

fn candidate(name: &str, votes: u32) -> Candidate {
    Candidate { name: name.to_string(), party: "p".to_string(), votes }
}

#[test]
fn single_leader_is_the_winner() {
    let cands = vec![candidate("Ann", 3), candidate("Ben", 7), candidate("Cy", 0)];
    let r = show_winner(&cands);
    assert_eq!(r.listing, "| Ann: 3 votes || Ben: 7 votes || Cy: 0 votes |");
    assert_eq!(r.announcement, Some("Winner: Ben\n".to_string()));
}

#[test]
fn tied_leaders_are_listed_in_order() {
    let cands = vec![candidate("Ann", 12), candidate("Ben", 7), candidate("Cy", 12), candidate("Di", 12)];
    let r = show_winner(&cands);
    assert_eq!(r.listing, "| Ann: 12 votes || Ben: 7 votes || Cy: 12 votes || Di: 12 votes |");
    assert_eq!(r.announcement, Some("Tie between: Ann, Cy, Di".to_string()));
}

#[test]
fn no_candidates_give_no_announcement() {
    let r = show_winner(&Vec::new());
    assert_eq!(r.listing, "");
    assert_eq!(r.announcement, None);
}

#[test]
fn all_zero_votes_is_a_tie_of_everyone() {
    let cands = vec![candidate("Ann", 0), candidate("Ben", 0)];
    let r = show_winner(&cands);
    assert_eq!(r.announcement, Some("Tie between: Ann, Ben".to_string()));
}

#[test]
fn large_counts_are_written_in_full() {
    let cands = vec![candidate("Ann", 4294967295), candidate("Ben", 1000000)];
    let r = show_winner(&cands);
    assert_eq!(r.listing, "| Ann: 4294967295 votes || Ben: 1000000 votes |");
    assert_eq!(r.announcement, Some("Winner: Ann\n".to_string()));
}

#[test]
fn leading_positions_finds_every_maximum() {
    assert_eq!(leading_positions(&vec![1, 5, 2, 5]), vec![1, 3]);
    assert_eq!(leading_positions(&vec![9]), vec![0]);
    assert_eq!(leading_positions(&Vec::new()), Vec::<usize>::new());
}

#[test]
fn declare_winners_reports_each_office() {
    let mut m = ElectionMetadata {
        status: "closed".to_string(),
        presidential_candidates: vec![candidate("P1", 1), candidate("P2", 2)],
        senate_candidates: vec![candidate("S1", 4), candidate("S2", 4)],
        judicial_candidates: Vec::new(),
        total_votes: 0,
    };
    let r = declare_winners(&m);
    assert_eq!(r.president.announcement, Some("Winner: P2\n".to_string()));
    assert_eq!(r.senate.announcement, Some("Tie between: S1, S2".to_string()));
    assert_eq!(r.judiciary.announcement, None);
    m.total_votes = 1;
}

#[test]
fn testing_tally_votes_tallies_then_declares() {
    let mut m = ElectionMetadata {
        status: "closed".to_string(),
        presidential_candidates: Vec::new(),
        senate_candidates: Vec::new(),
        judicial_candidates: Vec::new(),
        total_votes: 0,
    };
    testing_ballot(&mut m);
    let ballots = vec![
        Vote { president: 2, senate: 0, judiciary: 1 },
        Vote { president: 2, senate: 1, judiciary: 0 },
        Vote { president: 0, senate: 0, judiciary: 5 },
    ];
    let r = testing_tally_votes(&mut m, &ballots);
    assert_eq!(m.presidential_candidates[2].votes, 2);
    assert_eq!(r.president.announcement, Some("Winner: Julia Davis\n".to_string()));
    assert_eq!(r.president.listing, "| Alice Johnson: 1 votes || Robert Smith: 0 votes || Julia Davis: 2 votes |");
    assert_eq!(r.senate.announcement, Some("Winner: Michael Brown\n".to_string()));
    assert_eq!(r.judiciary.announcement, Some("Tie between: Emily Clark, James Taylor".to_string()));
}
