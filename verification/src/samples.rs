//! Sample data for trying the system out: a ballot with three candidates
//! per office and a registry of ten voters.

use vstd::prelude::*;
use crate::ballot::{candidate_appended, write_candidate};
use crate::registry::{add_new_voter, record_is, record_of};
use crate::model::{is_new_candidate, office_list, Candidate, ElectionMetadata, Office};

verus! {

/// `after` is `before` followed by three new candidates with the given
/// names and parties.
pub open spec fn three_added(
    after: Seq<Candidate>,
    before: Seq<Candidate>,
    names: Seq<Seq<char>>,
    parties: Seq<Seq<char>>,
) -> bool {
    &&& after.len() == before.len() + 3
    &&& after.take(before.len() as int) == before
    &&& forall|k: int| 0 <= k < 3 ==> is_new_candidate(#[trigger] after[before.len() + k], names[k], parties[k])
}

/// Adds the sample candidates to the ballot: Alice Johnson (Republican),
/// Robert Smith (Democratic) and Julia Davis (Independent) for president;
/// Michael Brown (Green), Susan Wilson (Progressive) and David Martinez
/// (Libertarian) for the senate; Emily Clark (Republican), James Taylor
/// (Democratic) and Joe Rogan (Libertarian) for judge.
pub fn testing_ballot(metadata: &mut ElectionMetadata)
    ensures
        three_added(
            final(metadata).presidential_candidates@,
            old(metadata).presidential_candidates@,
            seq!["Alice Johnson"@, "Robert Smith"@, "Julia Davis"@],
            seq!["Republican"@, "Democratic"@, "Independent"@],
        ),
        three_added(
            final(metadata).senate_candidates@,
            old(metadata).senate_candidates@,
            seq!["Michael Brown"@, "Susan Wilson"@, "David Martinez"@],
            seq!["Green"@, "Progressive"@, "Libertarian"@],
        ),
        three_added(
            final(metadata).judicial_candidates@,
            old(metadata).judicial_candidates@,
            seq!["Emily Clark"@, "James Taylor"@, "Joe Rogan"@],
            seq!["Republican"@, "Democratic"@, "Libertarian"@],
        ),
        final(metadata).status == old(metadata).status,
        final(metadata).total_votes == old(metadata).total_votes,
{
    proof {
        reveal_strlit("president");
        reveal_strlit("senate");
        reveal_strlit("judge");
        assert("senate"@ != "president"@) by {
            assert("senate"@.len() != "president"@.len());
        }
        assert("judge"@ != "president"@) by {
            assert("judge"@.len() != "president"@.len());
        }
        assert("judge"@ != "senate"@) by {
            assert("judge"@[0] != "senate"@[0]);
        }
    }
    let ghost m0 = *metadata;
    write_candidate(metadata, "president", "Alice Johnson", "Republican");
    let ghost m1 = *metadata;
    proof {
        step_facts(m0, m1, Office::President, "Alice Johnson"@, "Republican"@);
    }
    write_candidate(metadata, "president", "Robert Smith", "Democratic");
    let ghost m2 = *metadata;
    proof {
        step_facts(m1, m2, Office::President, "Robert Smith"@, "Democratic"@);
    }
    write_candidate(metadata, "president", "Julia Davis", "Independent");
    let ghost m3 = *metadata;
    proof {
        step_facts(m2, m3, Office::President, "Julia Davis"@, "Independent"@);
    }
    write_candidate(metadata, "senate", "Michael Brown", "Green");
    let ghost m4 = *metadata;
    proof {
        step_facts(m3, m4, Office::Senate, "Michael Brown"@, "Green"@);
    }
    write_candidate(metadata, "senate", "Susan Wilson", "Progressive");
    let ghost m5 = *metadata;
    proof {
        step_facts(m4, m5, Office::Senate, "Susan Wilson"@, "Progressive"@);
    }
    write_candidate(metadata, "senate", "David Martinez", "Libertarian");
    let ghost m6 = *metadata;
    proof {
        step_facts(m5, m6, Office::Senate, "David Martinez"@, "Libertarian"@);
    }
    write_candidate(metadata, "judge", "Emily Clark", "Republican");
    let ghost m7 = *metadata;
    proof {
        step_facts(m6, m7, Office::Judiciary, "Emily Clark"@, "Republican"@);
    }
    write_candidate(metadata, "judge", "James Taylor", "Democratic");
    let ghost m8 = *metadata;
    proof {
        step_facts(m7, m8, Office::Judiciary, "James Taylor"@, "Democratic"@);
    }
    write_candidate(metadata, "judge", "Joe Rogan", "Libertarian");
    let ghost m9 = *metadata;
    proof {
        step_facts(m8, m9, Office::Judiciary, "Joe Rogan"@, "Libertarian"@);
    }
    proof {
        assert(office_list(m9, Office::President) == office_list(m3, Office::President)) by {
            assert(office_list(m4, Office::President) == office_list(m3, Office::President));
            assert(office_list(m5, Office::President) == office_list(m4, Office::President));
            assert(office_list(m6, Office::President) == office_list(m5, Office::President));
            assert(office_list(m7, Office::President) == office_list(m6, Office::President));
            assert(office_list(m8, Office::President) == office_list(m7, Office::President));
            assert(office_list(m9, Office::President) == office_list(m8, Office::President));
        }
        assert(office_list(m3, Office::Senate) == office_list(m0, Office::Senate)) by {
            assert(office_list(m1, Office::Senate) == office_list(m0, Office::Senate));
            assert(office_list(m2, Office::Senate) == office_list(m1, Office::Senate));
            assert(office_list(m3, Office::Senate) == office_list(m2, Office::Senate));
        }
        assert(office_list(m9, Office::Senate) == office_list(m6, Office::Senate)) by {
            assert(office_list(m7, Office::Senate) == office_list(m6, Office::Senate));
            assert(office_list(m8, Office::Senate) == office_list(m7, Office::Senate));
            assert(office_list(m9, Office::Senate) == office_list(m8, Office::Senate));
        }
        assert(office_list(m6, Office::Judiciary) == office_list(m0, Office::Judiciary)) by {
            assert(office_list(m1, Office::Judiciary) == office_list(m0, Office::Judiciary));
            assert(office_list(m2, Office::Judiciary) == office_list(m1, Office::Judiciary));
            assert(office_list(m3, Office::Judiciary) == office_list(m2, Office::Judiciary));
            assert(office_list(m4, Office::Judiciary) == office_list(m3, Office::Judiciary));
            assert(office_list(m5, Office::Judiciary) == office_list(m4, Office::Judiciary));
            assert(office_list(m6, Office::Judiciary) == office_list(m5, Office::Judiciary));
        }
        three_steps(m0, m1, m2, m3, Office::President);
        three_steps(m3, m4, m5, m6, Office::Senate);
        three_steps(m6, m7, m8, m9, Office::Judiciary);
    }
}

/// Three appends to the list of office `o` keep its first entries.
proof fn three_steps(a: ElectionMetadata, b: ElectionMetadata, c: ElectionMetadata, d: ElectionMetadata, o: Office)
    requires
        office_list(b, o).len() == office_list(a, o).len() + 1,
        office_list(c, o).len() == office_list(b, o).len() + 1,
        office_list(d, o).len() == office_list(c, o).len() + 1,
        forall|i: int| 0 <= i < office_list(a, o).len() ==> #[trigger] office_list(b, o)[i] == office_list(a, o)[i],
        forall|i: int| 0 <= i < office_list(b, o).len() ==> #[trigger] office_list(c, o)[i] == office_list(b, o)[i],
        forall|i: int| 0 <= i < office_list(c, o).len() ==> #[trigger] office_list(d, o)[i] == office_list(c, o)[i],
    ensures
        office_list(d, o).take(office_list(a, o).len() as int) == office_list(a, o),
        office_list(d, o)[office_list(a, o).len() as int] == office_list(b, o).last(),
        office_list(d, o)[office_list(a, o).len() as int + 1] == office_list(c, o).last(),
        office_list(d, o)[office_list(a, o).len() as int + 2] == office_list(d, o).last(),
{
    let n = office_list(a, o).len() as int;
    assert forall|i: int| 0 <= i < n implies #[trigger] office_list(d, o)[i] == office_list(a, o)[i] by {
        assert(office_list(b, o)[i] == office_list(a, o)[i]);
        assert(office_list(c, o)[i] == office_list(b, o)[i]);
    }
    assert(office_list(d, o).take(n) =~= office_list(a, o));
    assert(office_list(c, o)[n] == office_list(b, o)[n]);
}

/// What one appended candidate does to each of the three lists.
proof fn step_facts(before: ElectionMetadata, after: ElectionMetadata, o: Office, name: Seq<char>, party: Seq<char>)
    requires
        candidate_appended(before, after, o, name, party),
    ensures
        after.status == before.status,
        after.total_votes == before.total_votes,
        forall|o2: Office| o2 != o ==> #[trigger] office_list(after, o2) == office_list(before, o2),
        office_list(after, o).len() == office_list(before, o).len() + 1,
        forall|i: int| 0 <= i < office_list(before, o).len() ==> #[trigger] office_list(after, o)[i] == office_list(before, o)[i],
        is_new_candidate(office_list(after, o).last(), name, party),
{
    assert forall|i: int| 0 <= i < office_list(before, o).len() implies #[trigger] office_list(after, o)[i] == office_list(before, o)[i] by {
        assert(office_list(after, o).drop_last()[i] == office_list(after, o)[i]);
    }
}

/// The names of the sample voters.
pub open spec fn sample_voter_names() -> Seq<Seq<char>> {
    seq!["daniel thompson"@, "laura anderson"@, "peter robinson"@, "linda carter"@, "george evans"@, "karen mitchell"@, "thomas wright"@, "sarah lewis"@, "jason walker"@, "megan hall"@]
}

/// The dates of birth of the sample voters.
pub open spec fn sample_voter_dobs() -> Seq<Seq<char>> {
    seq!["03/12/1987"@, "06/18/1991"@, "10/07/1984"@, "11/22/1993"@, "02/05/1980"@, "09/19/1977"@, "01/23/1996"@, "07/14/1989"@, "05/28/2002"@, "08/03/1998"@]
}

/// The sample voters' dates of birth are pairwise different.
proof fn lemma_sample_dobs_distinct()
    ensures
        forall|i: int, j: int| 0 <= i < j < 10 ==> #[trigger] sample_voter_dobs()[i] != #[trigger] sample_voter_dobs()[j],
{
    reveal_strlit("03/12/1987");
    reveal_strlit("06/18/1991");
    reveal_strlit("10/07/1984");
    reveal_strlit("11/22/1993");
    reveal_strlit("02/05/1980");
    reveal_strlit("09/19/1977");
    reveal_strlit("01/23/1996");
    reveal_strlit("07/14/1989");
    reveal_strlit("05/28/2002");
    reveal_strlit("08/03/1998");
    let d = sample_voter_dobs();
    assert(d[0][0] == '0' && d[0][1] == '3');
    assert(d[1][0] == '0' && d[1][1] == '6');
    assert(d[2][0] == '1' && d[2][1] == '0');
    assert(d[3][0] == '1' && d[3][1] == '1');
    assert(d[4][0] == '0' && d[4][1] == '2');
    assert(d[5][0] == '0' && d[5][1] == '9');
    assert(d[6][0] == '0' && d[6][1] == '1');
    assert(d[7][0] == '0' && d[7][1] == '7');
    assert(d[8][0] == '0' && d[8][1] == '5');
    assert(d[9][0] == '0' && d[9][1] == '8');
    assert forall|i: int, j: int| 0 <= i < j < 10 implies #[trigger] d[i] != #[trigger] d[j] by {
        if d[i] == d[j] {
            assert(d[i][0] == d[j][0] && d[i][1] == d[j][1]);
        }
    }
}

/// `records` holds exactly the first `k` sample voters, in order, each with
/// the flag `0`.
pub open spec fn first_samples(records: Seq<Vec<String>>, k: int) -> bool {
    &&& records.len() == k
    &&& forall|j: int|
        0 <= j < k ==> record_of(#[trigger] records[j]@, sample_voter_names()[j], sample_voter_dobs()[j], "0"@)
}

/// Registers sample voter `k`, who has no record yet among the first `k`.
fn add_sample_voter(records: &mut Vec<Vec<String>>, k: usize, name: &str, dob: &str)
    requires
        k < 10,
        first_samples(old(records)@, k as int),
        name@ == sample_voter_names()[k as int],
        dob@ == sample_voter_dobs()[k as int],
    ensures
        first_samples(final(records)@, k + 1),
{
    proof {
        lemma_sample_dobs_distinct();
        assert forall|i: int| 0 <= i < records@.len() implies !record_is(#[trigger] records@[i]@, name@, dob@) by {
            assert(records@[i]@[1]@ == sample_voter_dobs()[i]);
        }
    }
    let ghost before = records@;
    add_new_voter(records, name, dob);
    proof {
        assert(records@.drop_last() == before);
        assert forall|j: int| 0 <= j < k + 1 implies record_of(#[trigger] records@[j]@, sample_voter_names()[j], sample_voter_dobs()[j], "0"@) by {
            if j < k {
                assert(records@.drop_last()[j] == records@[j]);
            }
        }
    }
}

/// Registers the ten sample voters in an empty registry, in order, each with
/// the flag `0`.
pub fn testing_voter_reg() -> (records: Vec<Vec<String>>)
    ensures
        first_samples(records@, 10),
{
    let mut records: Vec<Vec<String>> = Vec::new();
    add_sample_voter(&mut records, 0, "daniel thompson", "03/12/1987");
    add_sample_voter(&mut records, 1, "laura anderson", "06/18/1991");
    add_sample_voter(&mut records, 2, "peter robinson", "10/07/1984");
    add_sample_voter(&mut records, 3, "linda carter", "11/22/1993");
    add_sample_voter(&mut records, 4, "george evans", "02/05/1980");
    add_sample_voter(&mut records, 5, "karen mitchell", "09/19/1977");
    add_sample_voter(&mut records, 6, "thomas wright", "01/23/1996");
    add_sample_voter(&mut records, 7, "sarah lewis", "07/14/1989");
    add_sample_voter(&mut records, 8, "jason walker", "05/28/2002");
    add_sample_voter(&mut records, 9, "megan hall", "08/03/1998");
    records
}

} // verus!
