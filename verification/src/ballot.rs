//! The ballot: adding candidates to offices, opening and closing the
//! election, and counting cast ballots.

use vstd::prelude::*;
use crate::model::{
    choice_for, is_new_candidate, office_list, with_one_more_vote, without_votes, Candidate,
    ElectionMetadata, Office, Vote,
};
use crate::text::{lowercase, str_eq, to_lowercase};

verus! {

/// The office that the office name `office` denotes, if any: `president`,
/// `senate` or `judge`.
pub open spec fn office_named(office: Seq<char>) -> Option<Office> {
    if office == "president"@ {
        Some(Office::President)
    } else if office == "senate"@ {
        Some(Office::Senate)
    } else if office == "judge"@ {
        Some(Office::Judiciary)
    } else {
        None
    }
}

/// `after` is `before` with a new candidate called `name` of party `party`
/// appended to the list of office `o`, and nothing else changed.
pub open spec fn candidate_appended(
    before: ElectionMetadata,
    after: ElectionMetadata,
    o: Office,
    name: Seq<char>,
    party: Seq<char>,
) -> bool {
    &&& after.status == before.status
    &&& after.total_votes == before.total_votes
    &&& forall|o2: Office|
        #![trigger office_list(after, o2)]
        if o2 == o {
            &&& office_list(after, o2).len() == office_list(before, o2).len() + 1
            &&& office_list(after, o2).drop_last() == office_list(before, o2)
            &&& is_new_candidate(office_list(after, o2).last(), name, party)
        } else {
            office_list(after, o2) == office_list(before, o2)
        }
}

/// Adds a candidate called `name` of party `party`, with no votes, to the end
/// of the candidate list of the office named `office` (`president`, `senate`
/// or `judge`). Any other office name leaves the metadata unchanged and
/// gives `false`.
pub fn write_candidate(metadata: &mut ElectionMetadata, office: &str, name: &str, party: &str) -> (added: bool)
    ensures
        added == office_named(office@) is Some,
        match office_named(office@) {
            Some(o) => candidate_appended(*old(metadata), *final(metadata), o, name@, party@),
            None => *final(metadata) == *old(metadata),
        },
{
    let candidate = Candidate { name: name.to_owned(), party: party.to_owned(), votes: 0 };
    if str_eq(office, "president") {
        metadata.presidential_candidates.push(candidate);
    } else if str_eq(office, "senate") {
        metadata.senate_candidates.push(candidate);
    } else if str_eq(office, "judge") {
        metadata.judicial_candidates.push(candidate);
    } else {
        return false;
    }
    proof {
        let before = *old(metadata);
        let after = *metadata;
        let o = office_named(office@)->0;
        assert forall|o2: Office| #![trigger office_list(after, o2)]
            o2 == o implies office_list(after, o2).drop_last() == office_list(before, o2) by {
            assert(office_list(after, o2).drop_last() =~= office_list(before, o2));
        }
    }
    true
}

/// Whether every office has at least one candidate.
pub open spec fn every_office_filled(m: ElectionMetadata) -> bool {
    &&& m.presidential_candidates@.len() >= 1
    &&& m.senate_candidates@.len() >= 1
    &&& m.judicial_candidates@.len() >= 1
}

/// The election can be opened only with a candidate on the ballot for each
/// of the three offices: the check that [`candidate_check`] makes and that
/// [`open_election`] opens by holds exactly when no office's candidate list
/// is empty, and an empty list for any office, the senate's included, keeps
/// the election closed.
pub proof fn law_opening_needs_every_office(m: ElectionMetadata)
    ensures
        every_office_filled(m) <==> forall|o: Office| #[trigger] office_list(m, o).len() >= 1,
        forall|o: Office| #[trigger] office_list(m, o).len() == 0 ==> !every_office_filled(m),
{
    assert(office_list(m, Office::President) == m.presidential_candidates@);
    assert(office_list(m, Office::Senate) == m.senate_candidates@);
    assert(office_list(m, Office::Judiciary) == m.judicial_candidates@);
    if every_office_filled(m) {
        assert forall|o: Office| #[trigger] office_list(m, o).len() >= 1 by {
            match o {
                Office::President => {},
                Office::Senate => {},
                Office::Judiciary => {},
            }
        }
    }
}

/// Checks that at least one candidate stands for each office.
pub fn candidate_check(metadata: &ElectionMetadata) -> (r: bool)
    ensures
        r == every_office_filled(*metadata),
{
    metadata.presidential_candidates.len() >= 1 && metadata.senate_candidates.len() >= 1
        && metadata.judicial_candidates.len() >= 1
}

/// Opens the election, setting its status to `open`, provided every office
/// has a candidate; otherwise leaves the metadata unchanged. Says whether it
/// opened the election.
pub fn open_election(metadata: &mut ElectionMetadata) -> (opened: bool)
    ensures
        opened == every_office_filled(*old(metadata)),
        opened ==> final(metadata).status@ == "open"@,
        !opened ==> final(metadata).status == old(metadata).status,
        final(metadata).presidential_candidates == old(metadata).presidential_candidates,
        final(metadata).senate_candidates == old(metadata).senate_candidates,
        final(metadata).judicial_candidates == old(metadata).judicial_candidates,
        final(metadata).total_votes == old(metadata).total_votes,
{
    if candidate_check(metadata) {
        metadata.status = "open".to_owned();
        true
    } else {
        false
    }
}

/// Closes the election, setting its status to `closed`.
pub fn close_election(metadata: &mut ElectionMetadata)
    ensures
        final(metadata).status@ == "closed"@,
        final(metadata).presidential_candidates == old(metadata).presidential_candidates,
        final(metadata).senate_candidates == old(metadata).senate_candidates,
        final(metadata).judicial_candidates == old(metadata).judicial_candidates,
        final(metadata).total_votes == old(metadata).total_votes,
{
    metadata.status = "closed".to_owned();
}

/// Sets the vote count of every candidate in `list` to zero.
fn zero_votes(list: &mut Vec<Candidate>)
    ensures
        final(list)@ == old(list)@.map_values(|c: Candidate| without_votes(c)),
{
    let n = list.len();
    for i in 0..n
        invariant
            n == old(list)@.len(),
            list@.len() == n,
            forall|j: int| 0 <= j < i ==> list@[j] == without_votes(#[trigger] old(list)@[j]),
            forall|j: int| i <= j < n ==> list@[j] == #[trigger] old(list)@[j],
    {
        list[i].votes = 0;
    }
    assert(list@ =~= old(list)@.map_values(|c: Candidate| without_votes(c)));
}

/// Resets the vote count of every candidate of every office to zero, keeping
/// the candidates and their order.
pub fn reset_votes(metadata: &mut ElectionMetadata)
    ensures
        forall|o: Office|
            #![trigger office_list(*final(metadata), o)]
            office_list(*final(metadata), o) == office_list(*old(metadata), o).map_values(
                |c: Candidate| without_votes(c),
            ),
        final(metadata).status == old(metadata).status,
        final(metadata).total_votes == old(metadata).total_votes,
{
    zero_votes(&mut metadata.presidential_candidates);
    zero_votes(&mut metadata.senate_candidates);
    zero_votes(&mut metadata.judicial_candidates);
}

/// Whether `choice` picks a candidate of a list of length `len`.
pub open spec fn picks(choice: i8, len: nat) -> bool {
    0 <= choice < len
}

/// `list` after counting one ballot that makes `choice` for it.
pub open spec fn counted(list: Seq<Candidate>, choice: i8) -> Seq<Candidate> {
    if picks(choice, list.len()) {
        list.update(choice as int, with_one_more_vote(list[choice as int]))
    } else {
        list
    }
}

/// Adds one vote to the candidate at position `choice` of `list`, if there is
/// one.
fn add_vote(list: &mut Vec<Candidate>, choice: i8)
    requires
        picks(choice, old(list)@.len()) ==> old(list)@[choice as int].votes < u32::MAX,
    ensures
        final(list)@ == counted(old(list)@, choice),
{
    if 0 <= choice && (choice as usize) < list.len() {
        let i = choice as usize;
        list[i].votes = list[i].votes + 1;
        assert(list@ =~= counted(old(list)@, choice));
    }
}

/// Counts one ballot: for each office, the candidate at the position the
/// ballot chose gets one more vote; a choice outside the candidate list
/// counts for nobody.
pub fn count_ballot(metadata: &mut ElectionMetadata, vote: &Vote)
    requires
        forall|o: Office|
            #![trigger office_list(*old(metadata), o)]
            picks(choice_for(*vote, o), office_list(*old(metadata), o).len()) ==> office_list(
                *old(metadata),
                o,
            )[choice_for(*vote, o) as int].votes < u32::MAX,
    ensures
        forall|o: Office|
            #![trigger office_list(*final(metadata), o)]
            office_list(*final(metadata), o) == counted(
                office_list(*old(metadata), o),
                choice_for(*vote, o),
            ),
        final(metadata).status == old(metadata).status,
        final(metadata).total_votes == old(metadata).total_votes,
{
    proof {
        assert(office_list(*old(metadata), Office::President) == old(metadata).presidential_candidates@);
        assert(office_list(*old(metadata), Office::Senate) == old(metadata).senate_candidates@);
        assert(office_list(*old(metadata), Office::Judiciary) == old(metadata).judicial_candidates@);
    }
    add_vote(&mut metadata.presidential_candidates, vote.president);
    add_vote(&mut metadata.senate_candidates, vote.senate);
    add_vote(&mut metadata.judicial_candidates, vote.judiciary);
}

/// The number of ballots in `ballots` that choose position `i` for office
/// `o`.
pub open spec fn ballots_choosing(ballots: Seq<Vote>, o: Office, i: int) -> nat
    decreases ballots.len(),
{
    if ballots.len() == 0 {
        0
    } else {
        ballots_choosing(ballots.drop_last(), o, i) + if choice_for(ballots.last(), o) as int == i {
            1nat
        } else {
            0nat
        }
    }
}

/// `list` with each candidate's votes replaced by the number of `ballots`
/// that choose that candidate for office `o`.
pub open spec fn tallied(list: Seq<Candidate>, ballots: Seq<Vote>, o: Office) -> Seq<Candidate> {
    Seq::new(
        list.len(),
        |i: int|
            Candidate {
                name: list[i].name,
                party: list[i].party,
                votes: ballots_choosing(ballots, o, i) as u32,
            },
    )
}

/// No candidate of `list`, for office `o`, is chosen by more than `u32::MAX`
/// of `ballots`.
pub open spec fn counts_fit(list: Seq<Candidate>, ballots: Seq<Vote>, o: Office) -> bool {
    forall|i: int| 0 <= i < list.len() ==> #[trigger] ballots_choosing(ballots, o, i) <= u32::MAX
}

/// No candidate of `m` is chosen by more than `u32::MAX` of `ballots`.
pub open spec fn tally_fits(m: ElectionMetadata, ballots: Seq<Vote>) -> bool {
    forall|o: Office| #[trigger] counts_fit(office_list(m, o), ballots, o)
}

/// A prefix of the ballots chooses a position no more often than all of
/// them.
pub proof fn lemma_ballots_choosing_prefix(ballots: Seq<Vote>, o: Office, i: int, k: int)
    requires
        0 <= k <= ballots.len(),
    ensures
        ballots_choosing(ballots.take(k), o, i) <= ballots_choosing(ballots, o, i),
    decreases ballots.len(),
{
    if k < ballots.len() {
        assert(ballots.drop_last().take(k) =~= ballots.take(k));
        lemma_ballots_choosing_prefix(ballots.drop_last(), o, i, k);
    } else {
        assert(ballots.take(k) =~= ballots);
    }
}

/// Counts `ballots` afresh: every candidate's vote count becomes the number
/// of ballots that choose them, whatever it was before; the candidates, their
/// order, the status and the total are kept.
pub fn tally_votes(metadata: &mut ElectionMetadata, ballots: &Vec<Vote>)
    requires
        tally_fits(*old(metadata), ballots@),
    ensures
        forall|o: Office|
            #![trigger office_list(*final(metadata), o)]
            office_list(*final(metadata), o) == tallied(
                office_list(*old(metadata), o),
                ballots@,
                o,
            ),
        final(metadata).status == old(metadata).status,
        final(metadata).total_votes == old(metadata).total_votes,
{
    reset_votes(metadata);
    let ghost start = *old(metadata);
    proof {
        assert forall|o: Office| #![trigger office_list(*metadata, o)]
            office_list(*metadata, o) == tallied(office_list(start, o), ballots@.take(0), o) by {
            assert(office_list(*metadata, o) =~= tallied(office_list(start, o), ballots@.take(0), o));
        }
    }
    let n = ballots.len();
    for k in 0..n
        invariant
            n == ballots@.len(),
            tally_fits(start, ballots@),
            metadata.status == start.status,
            metadata.total_votes == start.total_votes,
            forall|o: Office|
                #![trigger office_list(*metadata, o)]
                office_list(*metadata, o) == tallied(office_list(start, o), ballots@.take(k as int), o),
    {
        let ghost before = *metadata;
        let vote = ballots[k];
        proof {
            assert forall|o: Office| #![trigger office_list(before, o)]
                picks(choice_for(vote, o), office_list(before, o).len()) implies
                office_list(before, o)[choice_for(vote, o) as int].votes < u32::MAX by {
                let c = choice_for(vote, o) as int;
                let next = ballots@.take(k + 1);
                assert(next.drop_last() =~= ballots@.take(k as int));
                assert(next.last() == vote);
                assert(counts_fit(office_list(start, o), ballots@, o));
                lemma_ballots_choosing_prefix(ballots@, o, c, k + 1);
            }
        }
        count_ballot(metadata, &vote);
        proof {
            assert forall|o: Office| #![trigger office_list(*metadata, o)]
                office_list(*metadata, o) == tallied(office_list(start, o), ballots@.take(k + 1), o) by {
                let next = ballots@.take(k + 1);
                assert(next.drop_last() =~= ballots@.take(k as int));
                assert(next.last() == vote);
                let c = choice_for(vote, o) as int;
                assert(counts_fit(office_list(start, o), ballots@, o));
                assert forall|i: int| 0 <= i < office_list(start, o).len() implies #[trigger] ballots_choosing(next, o, i) <= u32::MAX by {
                    lemma_ballots_choosing_prefix(ballots@, o, i, k + 1);
                }
                assert(office_list(*metadata, o) =~= tallied(office_list(start, o), next, o));
            }
        }
    }
    proof {
        assert(ballots@.take(n as int) =~= ballots@);
    }
}

/// The choice `vote` makes for office `o`.
fn choice_of(vote: &Vote, o: Office) -> (c: i8)
    ensures
        c == choice_for(*vote, o),
{
    match o {
        Office::President => vote.president,
        Office::Senate => vote.senate,
        Office::Judiciary => vote.judiciary,
    }
}

/// Whether no position below `len` is chosen for office `o` by more than
/// `u32::MAX` of `ballots`.
fn choices_fit(len: usize, ballots: &Vec<Vote>, o: Office) -> (r: bool)
    ensures
        r == forall|i: int| 0 <= i < len ==> #[trigger] ballots_choosing(ballots@, o, i) <= u32::MAX,
{
    let n = ballots.len();
    for i in 0..len
        invariant
            n == ballots@.len(),
            forall|j: int| 0 <= j < i ==> #[trigger] ballots_choosing(ballots@, o, j) <= u32::MAX,
    {
        let mut count: u64 = 0;
        for k in 0..n
            invariant
                n == ballots@.len(),
                count == ballots_choosing(ballots@.take(k as int), o, i as int),
                count <= k,
        {
            let c = choice_of(&ballots[k], o);
            proof {
                let next = ballots@.take(k + 1);
                assert(next.drop_last() =~= ballots@.take(k as int));
                assert(next.last() == ballots@[k as int]);
            }
            if c >= 0 && c as usize == i {
                count = count + 1;
            }
        }
        assert(ballots@.take(n as int) =~= ballots@);
        if count > 4294967295u64 {
            return false;
        }
    }
    true
}

/// Whether [`tally_votes`] can count `ballots` into `metadata`: no candidate
/// is chosen by more than `u32::MAX` of them.
pub fn tally_fits_check(metadata: &ElectionMetadata, ballots: &Vec<Vote>) -> (r: bool)
    ensures
        r == tally_fits(*metadata, ballots@),
{
    let p = choices_fit(metadata.presidential_candidates.len(), ballots, Office::President);
    let s = choices_fit(metadata.senate_candidates.len(), ballots, Office::Senate);
    let j = choices_fit(metadata.judicial_candidates.len(), ballots, Office::Judiciary);
    proof {
        assert(counts_fit(office_list(*metadata, Office::President), ballots@, Office::President) == p);
        assert(counts_fit(office_list(*metadata, Office::Senate), ballots@, Office::Senate) == s);
        assert(counts_fit(office_list(*metadata, Office::Judiciary), ballots@, Office::Judiciary) == j);
        if p && s && j {
            assert forall|o: Office| #[trigger] counts_fit(office_list(*metadata, o), ballots@, o) by {
                match o {
                    Office::President => {},
                    Office::Senate => {},
                    Office::Judiciary => {},
                }
            }
        }
    }
    p && s && j
}

/// The sum of the vote counts of `list`.
pub open spec fn votes_total(list: Seq<Candidate>) -> int
    decreases list.len(),
{
    if list.len() == 0 {
        0
    } else {
        votes_total(list.drop_last()) + list.last().votes
    }
}

/// The number of `ballots` whose choice for office `o` picks a candidate of
/// a list of `n` candidates.
pub open spec fn ballots_picking(ballots: Seq<Vote>, o: Office, n: nat) -> nat
    decreases ballots.len(),
{
    if ballots.len() == 0 {
        0
    } else {
        ballots_picking(ballots.drop_last(), o, n) + if picks(choice_for(ballots.last(), o), n) {
            1nat
        } else {
            0nat
        }
    }
}

/// The number of choices of `ballots` for office `o` that fall on the
/// positions below `n`, position by position.
pub open spec fn choices_below(ballots: Seq<Vote>, o: Office, n: int) -> int
    decreases n,
{
    if n <= 0 {
        0
    } else {
        choices_below(ballots, o, n - 1) + ballots_choosing(ballots, o, n - 1)
    }
}

/// Adding one ballot adds one to the choices below `n` exactly when its
/// choice falls below `n`.
proof fn lemma_choices_below_step(ballots: Seq<Vote>, o: Office, n: int)
    requires
        ballots.len() > 0,
        n >= 0,
    ensures
        choices_below(ballots, o, n) == choices_below(ballots.drop_last(), o, n) + if 0 <= choice_for(
            ballots.last(),
            o,
        ) < n {
            1int
        } else {
            0int
        },
    decreases n,
{
    if n > 0 {
        lemma_choices_below_step(ballots, o, n - 1);
    }
}

/// The choices below `n`, counted position by position, are the ballots
/// that pick a candidate of a list of `n`.
proof fn lemma_choices_below_counts_picks(ballots: Seq<Vote>, o: Office, n: nat)
    ensures
        choices_below(ballots, o, n as int) == ballots_picking(ballots, o, n),
    decreases ballots.len(),
{
    if ballots.len() == 0 {
        lemma_choices_below_empty(ballots, o, n as int);
    } else {
        lemma_choices_below_counts_picks(ballots.drop_last(), o, n);
        lemma_choices_below_step(ballots, o, n as int);
    }
}

/// No ballot, no choices.
proof fn lemma_choices_below_empty(ballots: Seq<Vote>, o: Office, n: int)
    requires
        ballots.len() == 0,
    ensures
        choices_below(ballots, o, n) == 0,
    decreases n,
{
    if n > 0 {
        lemma_choices_below_empty(ballots, o, n - 1);
    }
}

/// After a tally, the votes of an office add up to the number of ballots
/// whose choice for that office picks one of its candidates: every such
/// ballot counts once, and no other ballot counts.
pub proof fn law_tally_counts_every_valid_ballot(list: Seq<Candidate>, ballots: Seq<Vote>, o: Office)
    requires
        counts_fit(list, ballots, o),
    ensures
        votes_total(tallied(list, ballots, o)) == ballots_picking(ballots, o, list.len()),
{
    lemma_choices_below_counts_picks(ballots, o, list.len());
    lemma_tallied_total(list, ballots, o);
}

/// The total of a tallied list is the count of choices below its length.
proof fn lemma_tallied_total(list: Seq<Candidate>, ballots: Seq<Vote>, o: Office)
    requires
        counts_fit(list, ballots, o),
    ensures
        votes_total(tallied(list, ballots, o)) == choices_below(ballots, o, list.len() as int),
    decreases list.len(),
{
    if list.len() > 0 {
        let t = tallied(list, ballots, o);
        assert(t.drop_last() =~= tallied(list.drop_last(), ballots, o));
        assert(counts_fit(list.drop_last(), ballots, o));
        lemma_tallied_total(list.drop_last(), ballots, o);
        assert(ballots_choosing(ballots, o, list.len() - 1) <= u32::MAX);
    }
}

/// A tally does not depend on the counts it starts from: tallying the same
/// ballots again changes nothing.
pub proof fn law_tally_is_idempotent(list: Seq<Candidate>, ballots: Seq<Vote>, o: Office)
    ensures
        tallied(tallied(list, ballots, o), ballots, o) == tallied(list, ballots, o),
{
    assert(tallied(tallied(list, ballots, o), ballots, o) =~= tallied(list, ballots, o));
}

/// A tally depends only on the candidates and the ballots: two candidate
/// lists that differ only in the vote counts they hold are tallied alike,
/// and the bound that a tally needs holds of both or of neither.
pub proof fn law_tally_ignores_prior_counts(a: Seq<Candidate>, b: Seq<Candidate>, ballots: Seq<Vote>, o: Office)
    requires
        a.len() == b.len(),
        forall|i: int| 0 <= i < a.len() ==> without_votes(#[trigger] a[i]) == without_votes(b[i]),
    ensures
        tallied(a, ballots, o) == tallied(b, ballots, o),
        counts_fit(a, ballots, o) == counts_fit(b, ballots, o),
{
    assert forall|i: int| 0 <= i < a.len() implies #[trigger] tallied(a, ballots, o)[i] == tallied(b, ballots, o)[i] by {
        assert(without_votes(a[i]) == without_votes(b[i]));
    }
    assert(tallied(a, ballots, o) =~= tallied(b, ballots, o));
}

/// Some candidate of some office has the name `name`, ignoring case.
pub open spec fn name_taken(m: ElectionMetadata, name: Seq<char>) -> bool {
    exists|o: Office, i: int|
        0 <= i < office_list(m, o).len() && lowercase(#[trigger] office_list(m, o)[i].name@)
            == lowercase(name)
}

/// No two candidates of the ballot, whatever their offices, have the same
/// name, ignoring case.
pub open spec fn names_distinct(m: ElectionMetadata) -> bool {
    forall|o1: Office, i1: int, o2: Office, i2: int|
        0 <= i1 < office_list(m, o1).len() && 0 <= i2 < office_list(m, o2).len() && (o1 != o2
            || i1 != i2) ==> lowercase(#[trigger] office_list(m, o1)[i1].name@) != lowercase(
            #[trigger] office_list(m, o2)[i2].name@,
        )
}

/// Whether some candidate of `list` has a name equal to `name` once both are
/// lowercased.
fn list_has_name(list: &Vec<Candidate>, name_lower: &String, Ghost(name): Ghost<Seq<char>>) -> (r: bool)
    requires
        name_lower@ == lowercase(name),
    ensures
        r == exists|i: int| 0 <= i < list@.len() && lowercase(#[trigger] list@[i].name@) == lowercase(name),
{
    let mut found = false;
    let n = list.len();
    for i in 0..n
        invariant
            n == list@.len(),
            name_lower@ == lowercase(name),
            found == exists|j: int| 0 <= j < i && lowercase(#[trigger] list@[j].name@) == lowercase(name),
    {
        let candidate_lower = to_lowercase(list[i].name.as_str());
        if candidate_lower == *name_lower {
            found = true;
        }
        proof {
            if lowercase(list@[i as int].name@) == lowercase(name) {
                assert(found);
            }
        }
    }
    found
}

/// Whether a candidate of any office already has the name `name`, ignoring
/// case.
pub fn candidate_name_taken(metadata: &ElectionMetadata, name: &str) -> (r: bool)
    ensures
        r == name_taken(*metadata, name@),
{
    let name_lower = to_lowercase(name);
    let p = list_has_name(&metadata.presidential_candidates, &name_lower, Ghost(name@));
    let s = list_has_name(&metadata.senate_candidates, &name_lower, Ghost(name@));
    let j = list_has_name(&metadata.judicial_candidates, &name_lower, Ghost(name@));
    proof {
        if p {
            let i = choose|i: int| 0 <= i < metadata.presidential_candidates@.len() && lowercase(
                #[trigger] metadata.presidential_candidates@[i].name@) == lowercase(name@);
            assert(office_list(*metadata, Office::President)[i] == metadata.presidential_candidates@[i]);
        }
        if s {
            let i = choose|i: int| 0 <= i < metadata.senate_candidates@.len() && lowercase(
                #[trigger] metadata.senate_candidates@[i].name@) == lowercase(name@);
            assert(office_list(*metadata, Office::Senate)[i] == metadata.senate_candidates@[i]);
        }
        if j {
            let i = choose|i: int| 0 <= i < metadata.judicial_candidates@.len() && lowercase(
                #[trigger] metadata.judicial_candidates@[i].name@) == lowercase(name@);
            assert(office_list(*metadata, Office::Judiciary)[i] == metadata.judicial_candidates@[i]);
        }
        if name_taken(*metadata, name@) {
            let (o, i) = choose|o: Office, i: int|
                0 <= i < office_list(*metadata, o).len() && lowercase(
                    #[trigger] office_list(*metadata, o)[i].name@,
                ) == lowercase(name@);
            match o {
                Office::President => assert(p),
                Office::Senate => assert(s),
                Office::Judiciary => assert(j),
            }
        }
    }
    p || s || j
}

/// The office chosen by a menu selection: `1` for president, `2` for the
/// senate, `3` for judge.
pub open spec fn office_selected(selection: Seq<char>) -> Option<Office> {
    if selection == "1"@ {
        Some(Office::President)
    } else if selection == "2"@ {
        Some(Office::Senate)
    } else if selection == "3"@ {
        Some(Office::Judiciary)
    } else {
        None
    }
}

/// The office that a menu selection chooses, if any.
pub fn office_for_selection(selection: &str) -> (o: Option<Office>)
    ensures
        o == office_selected(selection@),
{
    if str_eq(selection, "1") {
        Some(Office::President)
    } else if str_eq(selection, "2") {
        Some(Office::Senate)
    } else if str_eq(selection, "3") {
        Some(Office::Judiciary)
    } else {
        None
    }
}

/// `m` is the metadata of a new ballot: a closed election with no
/// candidates and no votes.
pub open spec fn is_fresh_ballot(m: ElectionMetadata) -> bool {
    &&& m.status@ == "closed"@
    &&& m.presidential_candidates@.len() == 0
    &&& m.senate_candidates@.len() == 0
    &&& m.judicial_candidates@.len() == 0
    &&& m.total_votes == 0
}

/// The metadata of a new ballot.
pub fn new_ballot_metadata() -> (m: ElectionMetadata)
    ensures
        is_fresh_ballot(m),
{
    ElectionMetadata {
        status: "closed".to_owned(),
        presidential_candidates: Vec::new(),
        senate_candidates: Vec::new(),
        judicial_candidates: Vec::new(),
        total_votes: 0,
    }
}

/// The outcome of adding a candidate to the ballot.
#[derive(Debug, Clone, Copy, PartialEq, Eq, Structural)]
pub enum CandidateAddition {
    /// The candidate was added to the selected office.
    Added,
    /// A candidate of that name, ignoring case, is on the ballot already;
    /// nothing changed.
    DuplicateName,
    /// The selection names no office; nothing changed.
    InvalidOffice,
}

/// Adds the candidate `name` of party `party` to the office chosen by
/// `office_selection` (`1` president, `2` senate, `3` judge), unless a
/// candidate of the same name, ignoring case, is on the ballot already. A
/// ballot whose names are distinct keeps them distinct.
pub fn add_candidate(metadata: &mut ElectionMetadata, name: &str, party: &str, office_selection: &str) -> (r: CandidateAddition)
    ensures
        name_taken(*old(metadata), name@) ==> r == CandidateAddition::DuplicateName,
        !name_taken(*old(metadata), name@) && office_selected(office_selection@) is None ==> r
            == CandidateAddition::InvalidOffice,
        !name_taken(*old(metadata), name@) && office_selected(office_selection@) is Some ==> r
            == CandidateAddition::Added,
        r == CandidateAddition::Added ==> candidate_appended(
            *old(metadata),
            *final(metadata),
            office_selected(office_selection@)->0,
            name@,
            party@,
        ),
        r != CandidateAddition::Added ==> *final(metadata) == *old(metadata),
        names_distinct(*old(metadata)) ==> names_distinct(*final(metadata)),
{
    if candidate_name_taken(metadata, name) {
        return CandidateAddition::DuplicateName;
    }
    let office = if str_eq(office_selection, "1") {
        "president"
    } else if str_eq(office_selection, "2") {
        "senate"
    } else if str_eq(office_selection, "3") {
        "judge"
    } else {
        return CandidateAddition::InvalidOffice;
    };
    proof {
        reveal_strlit("president");
        reveal_strlit("senate");
        reveal_strlit("judge");
        assert("senate"@ != "president"@) by {
            assert("senate"@.len() != "president"@.len());
        }
        assert("judge"@ != "president"@) by {
            assert("judge"@.len() != "president"@.len());
        }
        assert("judge"@ != "senate"@) by {
            assert("judge"@[0] != "senate"@[0]);
        }
    }
    let ghost before = *metadata;
    write_candidate(metadata, office, name, party);
    proof {
        let o = office_selected(office_selection@)->0;
        assert(office_named(office@) == Some(o));
        let after = *metadata;
        if names_distinct(before) {
            assert forall|o1: Office, i1: int, o2: Office, i2: int|
                0 <= i1 < office_list(after, o1).len() && 0 <= i2 < office_list(after, o2).len()
                    && (o1 != o2 || i1 != i2) implies lowercase(
                #[trigger] office_list(after, o1)[i1].name@,
            ) != lowercase(#[trigger] office_list(after, o2)[i2].name@) by {
                let l1 = office_list(before, o1).len() as int;
                let l2 = office_list(before, o2).len() as int;
                if o1 == o && i1 == l1 {
                    assert(office_list(after, o2)[i2] == office_list(before, o2)[i2]) by {
                        if o2 == o {
                            assert(office_list(after, o2).drop_last()[i2] == office_list(after, o2)[i2]);
                        }
                    }
                } else if o2 == o && i2 == l2 {
                    assert(office_list(after, o1)[i1] == office_list(before, o1)[i1]) by {
                        if o1 == o {
                            assert(office_list(after, o1).drop_last()[i1] == office_list(after, o1)[i1]);
                        }
                    }
                } else {
                    if o1 == o {
                        assert(office_list(after, o1).drop_last()[i1] == office_list(after, o1)[i1]);
                    }
                    if o2 == o {
                        assert(office_list(after, o2).drop_last()[i2] == office_list(after, o2)[i2]);
                    }
                }
            }
        }
    }
    CandidateAddition::Added
}

} // verus!
