//! The election's data: candidates, the election metadata, ballots and the
//! choices recorded on a ballot.

use vstd::prelude::*;

verus! {

/// A candidate standing for one office, with the number of votes counted
/// for them.
#[derive(Debug)]
pub struct Candidate {
    pub name: String,
    pub party: String,
    pub votes: u32,
}

/// The state of an election: whether it is open, and the candidates for
/// each of the three offices.
pub struct ElectionMetadata {
    pub status: String,
    pub presidential_candidates: Vec<Candidate>,
    pub senate_candidates: Vec<Candidate>,
    pub judicial_candidates: Vec<Candidate>,
    pub total_votes: u32,
}

/// A cast ballot: its identifier, the time it was cast and its choices.
#[derive(Debug)]
pub struct Ballot {
    pub vote_id: String,
    pub timestamp: String,
    pub votes: Vote,
}

/// The choices on a ballot: for each office, the position of the chosen
/// candidate in that office's candidate list.
#[derive(Debug, Clone, Copy, PartialEq, Eq, Structural)]
pub struct Vote {
    pub president: i8,
    pub senate: i8,
    pub judiciary: i8,
}

/// The three offices on the ballot.
#[derive(Debug, Clone, Copy, PartialEq, Eq, Structural)]
pub enum Office {
    President,
    Senate,
    Judiciary,
}

/// The candidate list of `m` for office `o`.
pub open spec fn office_list(m: ElectionMetadata, o: Office) -> Seq<Candidate> {
    match o {
        Office::President => m.presidential_candidates@,
        Office::Senate => m.senate_candidates@,
        Office::Judiciary => m.judicial_candidates@,
    }
}

/// The choice a ballot makes for office `o`.
pub open spec fn choice_for(v: Vote, o: Office) -> i8 {
    match o {
        Office::President => v.president,
        Office::Senate => v.senate,
        Office::Judiciary => v.judiciary,
    }
}

/// A candidate with the same name and party as `c` and no votes.
pub open spec fn without_votes(c: Candidate) -> Candidate {
    Candidate { name: c.name, party: c.party, votes: 0 }
}

/// A candidate with the same name and party as `c` and one vote more.
pub open spec fn with_one_more_vote(c: Candidate) -> Candidate {
    Candidate { name: c.name, party: c.party, votes: (c.votes + 1) as u32 }
}

/// `c` is a freshly added candidate called `name` of party `party`.
pub open spec fn is_new_candidate(c: Candidate, name: Seq<char>, party: Seq<char>) -> bool {
    &&& c.name@ == name
    &&& c.party@ == party
    &&& c.votes == 0
}

} // verus!

verus! {

/// The ways the election logic can fail.
#[derive(Debug, Clone, Copy, PartialEq, Eq, Structural)]
pub enum ElectionError {
    /// A pattern could not be compiled.
    Pattern,
    /// A ballot could not be encrypted.
    Encryption,
    /// A ballot could not be decrypted and authenticated.
    Decryption,
    /// A stored password hash is not a well-formed PHC string.
    MalformedPasswordHash,
    /// A record of a database file could not be read, or the records could
    /// not be written as CSV.
    Csv,
    /// A database record lacks a field that is read.
    MissingField,
    /// The voter database has no record at the given row.
    MissingRow,
    /// The voter database has more records than an `i32` can number.
    TooManyRecords,
}

} // verus!
