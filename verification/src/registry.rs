//! The voter registry: one record per registered voter, holding the voter's
//! name, date of birth and a flag that is `1` once they have voted and `0`
//! before.

use vstd::prelude::*;
use crate::model::ElectionMetadata;
use crate::ballot::{is_fresh_ballot, new_ballot_metadata};
use crate::crypto::{generate_key, key_len};
use crate::session::{current_timestamp, is_time_text};
use crate::text::str_eq;

verus! {

/// Record `r` is that of the voter called `name` born on `dob`.
pub open spec fn record_is(r: Seq<String>, name: Seq<char>, dob: Seq<char>) -> bool {
    &&& r.len() >= 2
    &&& r[0]@ == name
    &&& r[1]@ == dob
}

/// Record `i` of `records` is the first one of the voter `name`, `dob`.
pub open spec fn first_record_at(records: Seq<Vec<String>>, name: Seq<char>, dob: Seq<char>, i: int) -> bool {
    &&& 0 <= i < records.len()
    &&& record_is(records[i]@, name, dob)
    &&& forall|j: int| 0 <= j < i ==> !record_is(#[trigger] records[j]@, name, dob)
}

/// The voter `name`, `dob` has a record.
pub open spec fn registered(records: Seq<Vec<String>>, name: Seq<char>, dob: Seq<char>) -> bool {
    exists|i: int| 0 <= i < records.len() && record_is(#[trigger] records[i]@, name, dob)
}

/// Record `r` says that its voter has voted.
pub open spec fn marked_voted(r: Seq<String>) -> bool {
    r.len() >= 3 && r[2]@ == "1"@
}

/// The first record of the voter `name`, `dob` says that they have voted.
pub open spec fn has_voted(records: Seq<Vec<String>>, name: Seq<char>, dob: Seq<char>) -> bool {
    exists|i: int| #[trigger] first_record_at(records, name, dob, i) && marked_voted(records[i]@)
}

/// `r` is a record of three fields: `name`, `dob` and `flag`.
pub open spec fn record_of(r: Seq<String>, name: Seq<char>, dob: Seq<char>, flag: Seq<char>) -> bool {
    &&& r.len() == 3
    &&& r[0]@ == name
    &&& r[1]@ == dob
    &&& r[2]@ == flag
}

/// Every record has a name and a date of birth.
pub open spec fn complete_records(records: Seq<Vec<String>>) -> bool {
    forall|i: int| 0 <= i < records.len() ==> (#[trigger] records[i]@).len() >= 2
}

/// The registry can be searched by name and date of birth field by field:
/// every record has a name, and every record with the name `name` also has
/// a date of birth.
pub open spec fn searchable_for(records: Seq<Vec<String>>, name: Seq<char>) -> bool {
    forall|i: int|
        0 <= i < records.len() ==> (#[trigger] records[i]@).len() >= 1 && (records[i]@[0]@ == name
            ==> records[i]@.len() >= 2)
}

/// Whether record `r` is that of the voter `name`, `dob`, reading its fields
/// only where they exist.
fn record_matches(r: &Vec<String>, name: &str, dob: &str) -> (b: bool)
    ensures
        b == record_is(r@, name@, dob@),
{
    r.len() >= 2 && str_eq(r[0].as_str(), name) && str_eq(r[1].as_str(), dob)
}

/// The position of the first record of the voter `name`, `dob`, or -1 when
/// there is none.
pub fn get_voter_index(records: &Vec<Vec<String>>, name: &str, dob: &str) -> (r: i32)
    requires
        records@.len() <= i32::MAX,
    ensures
        r == -1 <==> !registered(records@, name@, dob@),
        r != -1 ==> first_record_at(records@, name@, dob@, r as int),
{
    let mut count: i32 = 0;
    let n = records.len();
    while (count as usize) < n
        invariant
            n == records@.len(),
            n <= i32::MAX,
            0 <= count <= n,
            forall|j: int| 0 <= j < count ==> !record_is(#[trigger] records@[j]@, name@, dob@),
        decreases n - count,
    {
        if record_matches(&records[count as usize], name, dob) {
            return count;
        }
        count = count + 1;
    }
    -1
}

/// Whether the voter `name`, `dob` has already voted: their first record
/// carries the flag `1`. A voter without a record has not voted.
pub fn already_voted(records: &Vec<Vec<String>>, name: &str, dob: &str) -> (r: bool)
    ensures
        r == has_voted(records@, name@, dob@),
{
    let n = records.len();
    for i in 0..n
        invariant
            n == records@.len(),
            forall|j: int| 0 <= j < i ==> !record_is(#[trigger] records@[j]@, name@, dob@),
    {
        if record_matches(&records[i], name, dob) {
            assert(first_record_at(records@, name@, dob@, i as int));
            let r = records[i].len() >= 3 && str_eq(records[i][2].as_str(), "1");
            proof {
                if !r {
                    assert forall|k: int| #[trigger] first_record_at(records@, name@, dob@, k)
                        implies !marked_voted(records@[k]@) by {
                        assert(k == i);
                    }
                }
            }
            return r;
        }
    }
    false
}

/// Whether the voter `name`, `dob` has a record.
pub fn verify_voter_data(records: &Vec<Vec<String>>, name: &str, dob: &str) -> (r: bool)
    ensures
        r == registered(records@, name@, dob@),
{
    let n = records.len();
    for i in 0..n
        invariant
            n == records@.len(),
            forall|j: int| 0 <= j < i ==> !record_is(#[trigger] records@[j]@, name@, dob@),
    {
        if record_matches(&records[i], name, dob) {
            return true;
        }
    }
    false
}

/// Whether the voter `name`, `dob` has a record, reading every record's name
/// and, where it matches, its date of birth.
fn is_voter_registered(records: &Vec<Vec<String>>, name: &str, dob: &str) -> (r: bool)
    requires
        searchable_for(records@, name@),
    ensures
        r == registered(records@, name@, dob@),
{
    let mut voter_registered = false;
    let n = records.len();
    for i in 0..n
        invariant
            n == records@.len(),
            searchable_for(records@, name@),
            voter_registered == exists|j: int| 0 <= j < i && record_is(#[trigger] records@[j]@, name@, dob@),
    {
        assert(records@[i as int]@.len() >= 1);
        if str_eq(records[i][0].as_str(), name) && str_eq(records[i][1].as_str(), dob) {
            voter_registered = true;
        }
        proof {
            if record_is(records@[i as int]@, name@, dob@) {
                assert(voter_registered);
            }
        }
    }
    voter_registered
}

/// A new record of three fields.
pub(crate) fn new_record(name: &str, dob: &str, flag: &str) -> (r: Vec<String>)
    ensures
        record_of(r@, name@, dob@, flag@),
{
    let mut r: Vec<String> = Vec::new();
    r.push(name.to_owned());
    r.push(dob.to_owned());
    r.push(flag.to_owned());
    r
}

/// `after` is the registry `before` once the voter `name`, `dob` has been
/// registered, `added` saying whether they were added: a voter with a
/// record is not added and the registry is kept; any other voter gets a
/// record `name`, `dob`, `0` at the end.
pub open spec fn voter_added(
    before: Seq<Vec<String>>,
    after: Seq<Vec<String>>,
    name: Seq<char>,
    dob: Seq<char>,
    added: bool,
) -> bool {
    &&& added == !registered(before, name, dob)
    &&& !added ==> after == before
    &&& added ==> after.len() == before.len() + 1 && after.drop_last() == before && record_of(
        after.last()@,
        name,
        dob,
        "0"@,
    )
    &&& registered(after, name, dob)
}

/// Registers the voter `name`, `dob` with the flag `0`, unless they already
/// have a record, in which case the registry is unchanged. Says whether it
/// added the voter.
pub fn add_new_voter(records: &mut Vec<Vec<String>>, name: &str, dob: &str) -> (added: bool)
    requires
        searchable_for(old(records)@, name@),
    ensures
        voter_added(old(records)@, final(records)@, name@, dob@, added),
        !added ==> *final(records) == *old(records),
{
    if is_voter_registered(records, name, dob) {
        return false;
    }
    records.push(new_record(name, dob, "0"));
    assert(records@.drop_last() =~= old(records)@);
    assert(record_is(records@[records@.len() - 1]@, name@, dob@));
    true
}

/// `after` is `before` with the record at `row` replaced by `name`, `dob`,
/// `1`.
pub open spec fn marked_voted_at(
    before: Seq<Vec<String>>,
    after: Seq<Vec<String>>,
    row: int,
    name: Seq<char>,
    dob: Seq<char>,
) -> bool {
    &&& 0 <= row < before.len()
    &&& after.len() == before.len()
    &&& forall|j: int| 0 <= j < before.len() && j != row ==> #[trigger] after[j] == before[j]
    &&& record_of(after[row]@, name, dob, "1"@)
}

/// Marks the voter at position `row` as having voted: that record becomes
/// `name`, `dob`, `1`; every other record is kept.
pub fn change_to_voted(records: &mut Vec<Vec<String>>, row: i32, name: &str, dob: &str)
    requires
        0 <= row < old(records)@.len(),
    ensures
        marked_voted_at(old(records)@, final(records)@, row as int, name@, dob@),
{
    let r = new_record(name, dob, "1");
    records.set(row as usize, r);
}

/// `after` is the registry `before` with every record reduced to its name
/// and date of birth and given the flag `0`.
pub open spec fn flags_reset(before: Seq<Vec<String>>, after: Seq<Vec<String>>) -> bool {
    &&& after.len() == before.len()
    &&& forall|i: int|
        0 <= i < before.len() ==> record_of(
            #[trigger] after[i]@,
            before[i]@[0]@,
            before[i]@[1]@,
            "0"@,
        )
}

/// A fresh election: its metadata, the key that encrypts its ballots and
/// the entry that starts its event log.
pub struct NewBallot {
    pub metadata: ElectionMetadata,
    pub encryption_key: Vec<u8>,
    pub log_entry: String,
}

/// Starts a new election: every record keeps its name and date of birth and
/// gets the flag `0`; the metadata is that of a closed election with no
/// candidates and no votes; the ballots get a fresh random 32-byte key; and
/// the log entry is the current time followed by a tab and
/// `New ballot created`.
pub fn create_ballot(records: &mut Vec<Vec<String>>) -> (fresh: NewBallot)
    requires
        complete_records(old(records)@),
    ensures
        flags_reset(old(records)@, final(records)@),
        is_fresh_ballot(fresh.metadata),
        fresh.encryption_key@.len() == key_len(),
        exists|t: Seq<char>| is_time_text(t) && fresh.log_entry@ == t + "\tNew ballot created"@,
{
    let n = records.len();
    for i in 0..n
        invariant
            n == old(records)@.len(),
            records@.len() == n,
            complete_records(old(records)@),
            forall|j: int|
                0 <= j < i ==> record_of(
                    #[trigger] records@[j]@,
                    old(records)@[j]@[0]@,
                    old(records)@[j]@[1]@,
                    "0"@,
                ),
            forall|j: int| i <= j < n ==> #[trigger] records@[j] == old(records)@[j],
    {
        assert(records@[i as int]@.len() >= 2);
        let r = new_record(records[i][0].as_str(), records[i][1].as_str(), "0");
        records.set(i, r);
    }
    let metadata = new_ballot_metadata();
    let mut log_entry = current_timestamp();
    log_entry.append("\tNew ballot created");
    NewBallot { metadata, encryption_key: generate_key(), log_entry }
}

/// Marking the first record of a voter as voted, as [`change_to_voted`]
/// does at the position [`get_voter_index`] gives, makes [`already_voted`]
/// hold for that voter, who keeps the same position.
pub proof fn law_marked_voter_has_voted(
    before: Seq<Vec<String>>,
    after: Seq<Vec<String>>,
    name: Seq<char>,
    dob: Seq<char>,
    row: int,
)
    requires
        first_record_at(before, name, dob, row),
        marked_voted_at(before, after, row, name, dob),
    ensures
        first_record_at(after, name, dob, row),
        has_voted(after, name, dob),
{
    assert forall|j: int| 0 <= j < row implies !record_is(#[trigger] after[j]@, name, dob) by {
        assert(after[j] == before[j]);
    }
    assert(first_record_at(after, name, dob, row));
}

/// A new election, as [`create_ballot`] starts it, keeps every voter
/// registered that was, registers nobody new, and leaves nobody marked as
/// having voted.
pub proof fn law_new_election_clears_votes(
    before: Seq<Vec<String>>,
    after: Seq<Vec<String>>,
    name: Seq<char>,
    dob: Seq<char>,
)
    requires
        complete_records(before),
        flags_reset(before, after),
    ensures
        registered(after, name, dob) == registered(before, name, dob),
        !has_voted(after, name, dob),
{
    if registered(before, name, dob) {
        let i = choose|i: int| 0 <= i < before.len() && record_is(#[trigger] before[i]@, name, dob);
        assert(record_is(after[i]@, name, dob));
    }
    if registered(after, name, dob) {
        let i = choose|i: int| 0 <= i < after.len() && record_is(#[trigger] after[i]@, name, dob);
        assert(record_is(before[i]@, name, dob));
    }
    assert forall|i: int| #[trigger] first_record_at(after, name, dob, i) implies !marked_voted(after[i]@) by {
        reveal_strlit("0");
        reveal_strlit("1");
        assert("0"@ != "1"@) by {
            assert("0"@[0] != "1"@[0]);
        }
        assert(after[i]@[2]@ == "0"@);
    }
}

/// Every voter that [`verify_voter_data`] finds has a first record, the
/// position that [`get_voter_index`] gives.
pub proof fn law_registered_voter_has_first_record(records: Seq<Vec<String>>, name: Seq<char>, dob: Seq<char>)
    requires
        registered(records, name, dob),
    ensures
        exists|i: int| #[trigger] first_record_at(records, name, dob, i),
    decreases records.len(),
{
    let last = records.len() - 1;
    if registered(records.drop_last(), name, dob) {
        law_registered_voter_has_first_record(records.drop_last(), name, dob);
        let i = choose|i: int| #[trigger] first_record_at(records.drop_last(), name, dob, i);
        assert forall|j: int| 0 <= j < i implies !record_is(#[trigger] records[j]@, name, dob) by {
            assert(records.drop_last()[j] == records[j]);
        }
        assert(first_record_at(records, name, dob, i));
    } else {
        assert forall|j: int| 0 <= j < last implies !record_is(#[trigger] records[j]@, name, dob) by {
            assert(records.drop_last()[j] == records[j]);
        }
        assert(first_record_at(records, name, dob, last));
    }
}

/// Registering the same voter twice has the effect of registering them
/// once: the second call adds nothing and leaves the registry as the first
/// call left it.
pub proof fn law_registering_twice_adds_once(
    first: Seq<Vec<String>>,
    second: Seq<Vec<String>>,
    third: Seq<Vec<String>>,
    name: Seq<char>,
    dob: Seq<char>,
    added_first: bool,
    added_second: bool,
)
    requires
        voter_added(first, second, name, dob, added_first),
        voter_added(second, third, name, dob, added_second),
    ensures
        !added_second,
        third == second,
{
}

/// Starting a new election twice over leaves the registry as the first start
/// left it: every record keeps the same fields.
pub proof fn law_new_election_repeats(
    first: Seq<Vec<String>>,
    second: Seq<Vec<String>>,
    third: Seq<Vec<String>>,
)
    requires
        complete_records(first),
        flags_reset(first, second),
        flags_reset(second, third),
    ensures
        third.len() == second.len(),
        forall|i: int|
            0 <= i < second.len() ==> (#[trigger] third[i]@).len() == second[i]@.len() && forall|k: int|
                0 <= k < second[i]@.len() ==> (#[trigger] third[i]@[k])@ == second[i]@[k]@,
{
    assert forall|i: int| 0 <= i < second.len() implies (#[trigger] third[i]@).len() == second[i]@.len()
        && forall|k: int| 0 <= k < second[i]@.len() ==> (#[trigger] third[i]@[k])@ == second[i]@[k]@ by {
        assert(record_of(second[i]@, first[i]@[0]@, first[i]@[1]@, "0"@));
        assert(record_of(third[i]@, second[i]@[0]@, second[i]@[1]@, "0"@));
        assert forall|k: int| 0 <= k < second[i]@.len() implies (#[trigger] third[i]@[k])@ == second[i]@[k]@ by {
            if k == 0 {
            } else if k == 1 {
            } else {
                assert(k == 2);
            }
        }
    }
}

} // verus!
