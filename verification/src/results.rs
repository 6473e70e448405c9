//! Declaring the winners: for each office, a listing of every candidate's
//! votes, and either the single leader or the candidates tied for the lead.

use vstd::prelude::*;
use crate::ballot::{tallied, tally_fits, tally_votes};
use crate::model::{office_list, Candidate, ElectionMetadata, Office, Vote};
use crate::text::{decimal, push_decimal};

verus! {

/// The vote counts of `cands`, in order.
pub open spec fn votes_of(cands: Seq<Candidate>) -> Seq<u32> {
    cands.map_values(|c: Candidate| c.votes)
}

/// Position `i` of `t` holds a largest count.
pub open spec fn leads(t: Seq<u32>, i: int) -> bool {
    &&& 0 <= i < t.len()
    &&& forall|j: int| 0 <= j < t.len() ==> t[j] <= t[i]
}

/// The positions below `n` that hold a largest count of `t`, in increasing
/// order.
pub open spec fn leaders_below(t: Seq<u32>, n: int) -> Seq<int>
    decreases n,
{
    if n <= 0 {
        Seq::empty()
    } else if leads(t, n - 1) {
        leaders_below(t, n - 1).push(n - 1)
    } else {
        leaders_below(t, n - 1)
    }
}

/// All positions of `t` that hold a largest count, in increasing order.
pub open spec fn leaders(t: Seq<u32>) -> Seq<int> {
    leaders_below(t, t.len() as int)
}

/// The line that lists every candidate with their votes, in order.
pub open spec fn listing(cands: Seq<Candidate>) -> Seq<char>
    decreases cands.len(),
{
    if cands.len() == 0 {
        Seq::empty()
    } else {
        listing(cands.drop_last()) + "| "@ + cands.last().name@ + ": "@ + decimal(
            cands.last().votes as nat,
        ) + " votes |"@
    }
}

/// The names of the candidates at positions `idxs`, separated by `, `.
pub open spec fn joined_names(cands: Seq<Candidate>, idxs: Seq<int>) -> Seq<char>
    decreases idxs.len(),
{
    if idxs.len() == 0 {
        Seq::empty()
    } else if idxs.len() == 1 {
        cands[idxs[0]].name@
    } else {
        joined_names(cands, idxs.drop_last()) + ", "@ + cands[idxs.last()].name@
    }
}

/// The announcement for a non-empty candidate list: the winner when one
/// candidate leads alone, otherwise the candidates tied for the lead.
pub open spec fn announcement(cands: Seq<Candidate>) -> Seq<char> {
    let top = leaders(votes_of(cands));
    if top.len() == 1 {
        "Winner: "@ + cands[top[0]].name@ + "\n"@
    } else {
        "Tie between: "@ + joined_names(cands, top)
    }
}

/// What is shown for one office: the listing of all candidates and, when
/// there is at least one candidate, the announcement of the result.
pub struct WinnerReport {
    pub listing: String,
    pub announcement: Option<String>,
}

/// `r` is the report for the candidate list `cands`.
pub open spec fn reports(r: WinnerReport, cands: Seq<Candidate>) -> bool {
    &&& r.listing@ == listing(cands)
    &&& (r.announcement is None <==> cands.len() == 0)
    &&& (r.announcement matches Some(a) ==> a@ == announcement(cands))
}

/// The reports for the three offices.
pub struct ElectionResults {
    pub president: WinnerReport,
    pub senate: WinnerReport,
    pub judiciary: WinnerReport,
}

/// `r` holds the reports for the three offices of `m`.
pub open spec fn results_of(r: ElectionResults, m: ElectionMetadata) -> bool {
    &&& reports(r.president, office_list(m, Office::President))
    &&& reports(r.senate, office_list(m, Office::Senate))
    &&& reports(r.judiciary, office_list(m, Office::Judiciary))
}

/// Every position in `leaders_below(t, n)` is below `n` and leads, and the
/// positions increase strictly.
pub proof fn lemma_leaders_below_sound(t: Seq<u32>, n: int)
    ensures
        forall|k: int|
            0 <= k < leaders_below(t, n).len() ==> #[trigger] leaders_below(t, n)[k] < n && leads(
                t,
                leaders_below(t, n)[k],
            ),
        forall|k: int, l: int|
            0 <= k < l < leaders_below(t, n).len() ==> #[trigger] leaders_below(t, n)[k]
                < #[trigger] leaders_below(t, n)[l],
    decreases n,
{
    if n > 0 {
        lemma_leaders_below_sound(t, n - 1);
        let prev = leaders_below(t, n - 1);
        let cur = leaders_below(t, n);
        if leads(t, n - 1) {
            assert(cur == prev.push(n - 1));
            assert forall|k: int| 0 <= k < cur.len() implies #[trigger] cur[k] < n && leads(t, cur[k]) by {
                if k < prev.len() {
                    assert(cur[k] == prev[k]);
                }
            }
            assert forall|k: int, l: int| 0 <= k < l < cur.len() implies #[trigger] cur[k] < #[trigger] cur[l] by {
                assert(cur[k] == prev[k]);
                if l < prev.len() {
                    assert(cur[l] == prev[l]);
                }
            }
        }
    }
}

/// Every leading position below `n` is in `leaders_below(t, n)`.
pub proof fn lemma_leaders_below_complete(t: Seq<u32>, n: int, i: int)
    requires
        0 <= i < n,
        leads(t, i),
    ensures
        leaders_below(t, n).contains(i),
    decreases n,
{
    if i < n - 1 {
        lemma_leaders_below_complete(t, n - 1, i);
        if leads(t, n - 1) {
            assert(leaders_below(t, n)[leaders_below(t, n - 1).index_of(i)] == i);
        }
    } else {
        assert(leaders_below(t, n).last() == i);
    }
}

/// The positions of `tallies` that hold its largest value, in increasing
/// order.
pub fn leading_positions(tallies: &Vec<u32>) -> (r: Vec<usize>)
    ensures
        r@.map_values(|x: usize| x as int) == leaders(tallies@),
        tallies@.len() > 0 ==> r@.len() > 0,
{
    let n = tallies.len();
    if n == 0 {
        let r: Vec<usize> = Vec::new();
        assert(r@.map_values(|x: usize| x as int) =~= leaders(tallies@));
        return r;
    }
    let mut max_val: u32 = tallies[0];
    let mut k: usize = 1;
    while k < n
        invariant
            n == tallies@.len(),
            1 <= k <= n,
            exists|j: int| 0 <= j < k && tallies@[j] == max_val,
            forall|j: int| 0 <= j < k ==> tallies@[j] <= max_val,
        decreases n - k,
    {
        if tallies[k] > max_val {
            max_val = tallies[k];
        }
        k = k + 1;
    }
    let mut r: Vec<usize> = Vec::new();
    let mut i: usize = 0;
    while i < n
        invariant
            n == tallies@.len(),
            i <= n,
            forall|j: int| 0 <= j < n ==> (leads(tallies@, j) <==> tallies@[j] == max_val),
            r@.map_values(|x: usize| x as int) == leaders_below(tallies@, i as int),
        decreases n - i,
    {
        if tallies[i] == max_val {
            r.push(i);
        }
        proof {
            assert(r@.map_values(|x: usize| x as int) =~= leaders_below(tallies@, i + 1));
        }
        i = i + 1;
    }
    proof {
        let w = choose|j: int| 0 <= j < n && tallies@[j] == max_val;
        lemma_leaders_below_complete(tallies@, n as int, w);
    }
    r
}

/// Builds the listing line for `cands`.
fn listing_line(cands: &Vec<Candidate>) -> (s: String)
    ensures
        s@ == listing(cands@),
{
    let mut s = String::new();
    let n = cands.len();
    for i in 0..n
        invariant
            n == cands@.len(),
            s@ == listing(cands@.take(i as int)),
    {
        proof {
            let next = cands@.take(i + 1);
            assert(next.drop_last() =~= cands@.take(i as int));
            assert(next.last() == cands@[i as int]);
        }
        s.append("| ");
        s.append(cands[i].name.as_str());
        s.append(": ");
        push_decimal(&mut s, cands[i].votes);
        s.append(" votes |");
    }
    assert(cands@.take(n as int) =~= cands@);
    s
}

/// Builds the names of the candidates at positions `idxs`, separated by
/// `, `.
fn names_line(cands: &Vec<Candidate>, idxs: &Vec<usize>) -> (s: String)
    requires
        forall|k: int| 0 <= k < idxs@.len() ==> #[trigger] idxs@[k] < cands@.len(),
    ensures
        s@ == joined_names(cands@, idxs@.map_values(|x: usize| x as int)),
{
    let mut s = String::new();
    let n = idxs.len();
    for k in 0..n
        invariant
            n == idxs@.len(),
            forall|k: int| 0 <= k < idxs@.len() ==> #[trigger] idxs@[k] < cands@.len(),
            s@ == joined_names(cands@, idxs@.take(k as int).map_values(|x: usize| x as int)),
    {
        let ghost prev = idxs@.take(k as int).map_values(|x: usize| x as int);
        let ghost next = idxs@.take(k + 1).map_values(|x: usize| x as int);
        proof {
            assert(next.drop_last() =~= prev);
            assert(next.last() == idxs@[k as int] as int);
        }
        if k > 0 {
            s.append(", ");
        } else {
            assert(s@ =~= Seq::<char>::empty());
        }
        s.append(cands[idxs[k]].name.as_str());
    }
    assert(idxs@.take(n as int) =~= idxs@);
    s
}

/// The report for one office: the listing of every candidate's votes, then,
/// unless there is no candidate, the winner or the candidates tied for the
/// most votes.
pub fn show_winner(candidates: &Vec<Candidate>) -> (r: WinnerReport)
    ensures
        reports(r, candidates@),
{
    let listing = listing_line(candidates);
    let mut tallies: Vec<u32> = Vec::new();
    let n = candidates.len();
    for i in 0..n
        invariant
            n == candidates@.len(),
            tallies@ == votes_of(candidates@.take(i as int)),
    {
        tallies.push(candidates[i].votes);
        assert(tallies@ =~= votes_of(candidates@.take(i + 1)));
    }
    assert(candidates@.take(n as int) =~= candidates@);
    let top = leading_positions(&tallies);
    let ghost t = tallies@;
    let ghost top_seq = top@.map_values(|x: usize| x as int);
    proof {
        lemma_leaders_below_sound(t, t.len() as int);
        assert forall|k: int| 0 <= k < top@.len() implies #[trigger] top@[k] < candidates@.len() by {
            assert(top_seq[k] == top@[k] as int);
        }
    }
    if n == 0 {
        return WinnerReport { listing, announcement: None };
    }
    if top.len() == 1 {
        let mut a = String::new();
        a.append("Winner: ");
        a.append(candidates[top[0]].name.as_str());
        a.append("\n");
        assert(top_seq[0] == top@[0] as int);
        assert(a@ =~= announcement(candidates@));
        WinnerReport { listing, announcement: Some(a) }
    } else {
        let mut a = String::new();
        a.append("Tie between: ");
        let names = names_line(candidates, &top);
        a.append(names.as_str());
        assert(a@ =~= announcement(candidates@));
        WinnerReport { listing, announcement: Some(a) }
    }
}

/// The reports for the three offices of `metadata`.
pub fn declare_winners(metadata: &ElectionMetadata) -> (r: ElectionResults)
    ensures
        results_of(r, *metadata),
{
    ElectionResults {
        president: show_winner(&metadata.presidential_candidates),
        senate: show_winner(&metadata.senate_candidates),
        judiciary: show_winner(&metadata.judicial_candidates),
    }
}

/// Tallies `ballots` into `metadata` afresh and declares the winners of the
/// result.
pub fn testing_tally_votes(metadata: &mut ElectionMetadata, ballots: &Vec<Vote>) -> (r:
    ElectionResults)
    requires
        tally_fits(*old(metadata), ballots@),
    ensures
        forall|o: Office|
            #![trigger office_list(*final(metadata), o)]
            office_list(*final(metadata), o) == tallied(
                office_list(*old(metadata), o),
                ballots@,
                o,
            ),
        final(metadata).status == old(metadata).status,
        final(metadata).total_votes == old(metadata).total_votes,
        results_of(r, *final(metadata)),
{
    tally_votes(metadata, ballots);
    declare_winners(metadata)
}

/// When one candidate alone has the most votes, the announcement names that
/// candidate, and every other candidate has strictly fewer votes.
pub proof fn law_winner_leads_alone(cands: Seq<Candidate>)
    requires
        leaders(votes_of(cands)).len() == 1,
    ensures
        announcement(cands) == "Winner: "@ + cands[leaders(votes_of(cands))[0]].name@ + "\n"@,
        0 <= leaders(votes_of(cands))[0] < cands.len(),
        forall|j: int|
            0 <= j < cands.len() && j != leaders(votes_of(cands))[0] ==> #[trigger] cands[j].votes
                < cands[leaders(votes_of(cands))[0]].votes,
{
    let t = votes_of(cands);
    let w = leaders(t)[0];
    lemma_leaders_below_sound(t, t.len() as int);
    assert forall|j: int| 0 <= j < cands.len() && j != w implies #[trigger] cands[j].votes < cands[w].votes by {
        assert(t[j] == cands[j].votes);
        assert(t[w] == cands[w].votes);
        if t[j] >= t[w] {
            assert(leads(t, j));
            lemma_leaders_below_complete(t, t.len() as int, j);
            let k = leaders(t).index_of(j);
            assert(leaders(t)[k] == j);
        }
    }
}

/// When candidates are tied, the announcement lists exactly the candidates
/// with the most votes, each once, in ballot order, and there are at least
/// two of them.
pub proof fn law_tie_lists_every_leader(cands: Seq<Candidate>)
    requires
        cands.len() > 0,
        leaders(votes_of(cands)).len() != 1,
    ensures
        leaders(votes_of(cands)).len() >= 2,
        announcement(cands) == "Tie between: "@ + joined_names(cands, leaders(votes_of(cands))),
        forall|i: int|
            0 <= i < cands.len() ==> (leaders(votes_of(cands)).contains(i) <==> forall|j: int|
                0 <= j < cands.len() ==> #[trigger] cands[j].votes <= cands[i].votes),
        forall|k: int, l: int|
            0 <= k < l < leaders(votes_of(cands)).len() ==> #[trigger] leaders(votes_of(cands))[k]
                < #[trigger] leaders(votes_of(cands))[l],
{
    let t = votes_of(cands);
    lemma_leaders_below_sound(t, t.len() as int);
    assert(leaders(t).len() > 0) by {
        lemma_some_position_leads(t);
        let m = choose|m: int| leads(t, m);
        lemma_leaders_below_complete(t, t.len() as int, m);
    }
    assert forall|i: int| 0 <= i < cands.len() implies (leaders(t).contains(i) <==> forall|j: int|
        0 <= j < cands.len() ==> #[trigger] cands[j].votes <= cands[i].votes) by {
        if leaders(t).contains(i) {
            let k = leaders(t).index_of(i);
            assert(leads(t, leaders(t)[k]));
            assert forall|j: int| 0 <= j < cands.len() implies #[trigger] cands[j].votes <= cands[i].votes by {
                assert(t[j] == cands[j].votes);
            }
        }
        if forall|j: int| 0 <= j < cands.len() ==> #[trigger] cands[j].votes <= cands[i].votes {
            assert forall|j: int| 0 <= j < t.len() implies t[j] <= t[i] by {
                assert(cands[j].votes <= cands[i].votes);
            }
            lemma_leaders_below_complete(t, t.len() as int, i);
        }
    }
}

/// A non-empty list of counts has a position holding a largest count.
pub proof fn lemma_some_position_leads(t: Seq<u32>)
    requires
        t.len() > 0,
    ensures
        exists|m: int| leads(t, m),
    decreases t.len(),
{
    if t.len() == 1 {
        assert(leads(t, 0));
    } else {
        let s = t.drop_last();
        lemma_some_position_leads(s);
        let m = choose|m: int| leads(s, m);
        if t[m] >= t.last() {
            assert forall|j: int| 0 <= j < t.len() implies t[j] <= t[m] by {
                if j < s.len() {
                    assert(s[j] == t[j]);
                }
            }
            assert(leads(t, m));
        } else {
            let l = t.len() - 1;
            assert forall|j: int| 0 <= j < t.len() implies t[j] <= t[l] by {
                if j < s.len() {
                    assert(s[j] == t[j]);
                    assert(s[j] <= s[m]);
                }
            }
            assert(leads(t, l));
        }
    }
}

} // verus!
