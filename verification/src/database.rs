//! The voter database and the login database as they are stored: headerless
//! CSV text, one record per line. A database is read record by record up to
//! the first record that cannot be read; each operation answers from the
//! records it reaches before that one, as a reader that stops at the first
//! bad record would.

use vstd::prelude::*;
use vstd::string::StringSliceAdditionalSpecFns;
use crate::crypto::{admin_authenticate, credentials_accept, key_len, password_hash_parses, phc_hash_parses};
use crate::ballot::is_fresh_ballot;
use crate::eligibility::{eligibility, eligibility_of, is_dob_shape, registry_searchable, Eligibility};
use crate::model::ElectionError;
use crate::registry::{
    already_voted, change_to_voted, complete_records, create_ballot, first_record_at, get_voter_index,
    has_voted, new_record, record_of, registered, searchable_for, verify_voter_data, NewBallot,
};
use crate::session::is_time_text;

verus! {

/// What reading the headerless CSV text `bytes` record by record gives, in
/// order: the fields of each record, or `None` for a record that cannot be
/// read.
pub uninterp spec fn csv_records(bytes: Seq<u8>) -> Seq<Option<Seq<Seq<char>>>>;

/// The headerless CSV text that writing `records` one after the other gives,
/// or `None` when the writer refuses one of them.
pub uninterp spec fn csv_text(records: Seq<Seq<Seq<char>>>) -> Option<Seq<u8>>;

/// The fields of a record, as text.
pub open spec fn record_text(r: Vec<String>) -> Seq<Seq<char>> {
    r@.map_values(|f: String| f@)
}

/// The fields of each record, as text.
pub open spec fn records_text(records: Seq<Vec<String>>) -> Seq<Seq<Seq<char>>> {
    records.map_values(|r: Vec<String>| record_text(r))
}

/// A record as read, as text.
pub open spec fn read_text(r: Option<Vec<String>>) -> Option<Seq<Seq<char>>> {
    match r {
        Some(v) => Some(record_text(v)),
        None => None,
    }
}

/// Reads the headerless CSV text `bytes` with `csv::ReaderBuilder` (no
/// header row) and its `records` iterator, giving each record's fields as
/// strings or `None` for a record that the reader reports as an error. What
/// the reader yields for given bytes is left to the name.
#[verifier::external_body]
fn parse_csv(bytes: &[u8]) -> (r: Vec<Option<Vec<String>>>)
    ensures
        r@.map_values(|o: Option<Vec<String>>| read_text(o)) == csv_records(bytes@),
{
    let mut rdr = csv::ReaderBuilder::new().has_headers(false).from_reader(bytes);
    rdr.records().map(|rec| rec.ok().map(|rec| rec.iter().map(|f| f.to_string()).collect())).collect()
}

/// Writes `records` with `csv::WriterBuilder` (no header row) into memory,
/// one `write_record` call per record, and gives the text, or `None` when a
/// call fails. What the writer produces is left to the name.
#[verifier::external_body]
fn format_csv(records: &Vec<Vec<String>>) -> (r: Option<Vec<u8>>)
    ensures
        match r {
            Some(b) => csv_text(records_text(records@)) == Some(b@),
            None => csv_text(records_text(records@)) is None,
        },
{
    let mut writer = csv::WriterBuilder::new().has_headers(false).from_writer(Vec::new());
    for record in records {
        writer.write_record(record).ok()?;
    }
    writer.into_inner().ok()
}

/// A database as read: the records before the first one that cannot be
/// read, and whether every record could be read.
pub struct Database {
    pub records: Vec<Vec<String>>,
    pub fully_read: bool,
}

/// `records` are the records of `read` before the first one that cannot be
/// read, and `fully_read` says whether there is no such record.
pub open spec fn read_as(read: Seq<Option<Seq<Seq<char>>>>, records: Seq<Vec<String>>, fully_read: bool) -> bool {
    &&& records.len() <= read.len()
    &&& forall|j: int| 0 <= j < records.len() ==> read[j] == Some(record_text(#[trigger] records[j]))
    &&& fully_read == (records.len() == read.len())
    &&& !fully_read ==> read[records.len() as int] is None
}

/// A copy of a record.
fn copy_record(r: &Vec<String>) -> (c: Vec<String>)
    ensures
        c@ == r@,
{
    let mut c: Vec<String> = Vec::new();
    let n = r.len();
    for k in 0..n
        invariant
            n == r@.len(),
            c@ == r@.take(k as int),
    {
        c.push(r[k].clone());
        assert(c@ =~= r@.take(k + 1));
    }
    assert(r@.take(n as int) =~= r@);
    c
}

/// A copy of a list of records.
fn copy_records(rs: &Vec<Vec<String>>) -> (c: Vec<Vec<String>>)
    ensures
        c@.len() == rs@.len(),
        forall|j: int| 0 <= j < rs@.len() ==> (#[trigger] c@[j])@ == rs@[j]@,
{
    let mut c: Vec<Vec<String>> = Vec::new();
    let n = rs.len();
    for k in 0..n
        invariant
            n == rs@.len(),
            c@.len() == k,
            forall|j: int| 0 <= j < k ==> (#[trigger] c@[j])@ == rs@[j]@,
    {
        c.push(copy_record(&rs[k]));
    }
    c
}

/// Reads a database from its stored text `bytes`: the records before the
/// first one that cannot be read, and whether all could be read.
pub fn read_database(bytes: &[u8]) -> (db: Database)
    ensures
        read_as(csv_records(bytes@), db.records@, db.fully_read),
{
    let parsed = parse_csv(bytes);
    let ghost read = csv_records(bytes@);
    let mut records: Vec<Vec<String>> = Vec::new();
    let n = parsed.len();
    assert(read.len() == n);
    let mut i: usize = 0;
    while i < n
        invariant
            n == parsed@.len(),
            read == csv_records(bytes@),
            read.len() == n,
            parsed@.map_values(|o: Option<Vec<String>>| read_text(o)) == read,
            i <= n,
            records@.len() == i,
            forall|j: int| 0 <= j < i ==> read[j] == Some(record_text(#[trigger] records@[j])),
        decreases n - i,
    {
        assert(read[i as int] == read_text(parsed@[i as int]));
        if parsed[i].is_none() {
            assert(read[i as int] is None);
            return Database { records, fully_read: false };
        }
        let r = parsed[i].as_ref().unwrap();
        records.push(copy_record(r));
        i = i + 1;
    }
    Database { records, fully_read: true }
}

/// The position of the first record of the voter `name`, `dob` in the voter
/// database, or -1 when every record could be read and none is theirs. A
/// record that cannot be read before theirs is an error.
pub fn get_voter_index_in(db: &Database, name: &str, dob: &str) -> (r: Result<i32, ElectionError>)
    ensures
        db.records@.len() > i32::MAX ==> r == Err::<i32, ElectionError>(ElectionError::TooManyRecords),
        db.records@.len() <= i32::MAX && registered(db.records@, name@, dob@) ==> (r matches Ok(i)
            && first_record_at(db.records@, name@, dob@, i as int)),
        db.records@.len() <= i32::MAX && !registered(db.records@, name@, dob@) && db.fully_read ==> r
            == Ok::<i32, ElectionError>(-1i32),
        db.records@.len() <= i32::MAX && !registered(db.records@, name@, dob@) && !db.fully_read ==> r
            == Err::<i32, ElectionError>(ElectionError::Csv),
{
    if db.records.len() > 2147483647 {
        return Err(ElectionError::TooManyRecords);
    }
    let i = get_voter_index(&db.records, name, dob);
    if i != -1 || db.fully_read {
        Ok(i)
    } else {
        Err(ElectionError::Csv)
    }
}

/// Whether the voter `name`, `dob` has voted, by their first record in the
/// voter database; a voter without a record has not, when every record
/// could be read. A record that cannot be read before theirs is an error.
pub fn already_voted_in(db: &Database, name: &str, dob: &str) -> (r: Result<bool, ElectionError>)
    ensures
        registered(db.records@, name@, dob@) || db.fully_read ==> r == Ok::<bool, ElectionError>(
            has_voted(db.records@, name@, dob@),
        ),
        !registered(db.records@, name@, dob@) && !db.fully_read ==> r == Err::<bool, ElectionError>(
            ElectionError::Csv,
        ),
{
    if verify_voter_data(&db.records, name, dob) || db.fully_read {
        Ok(already_voted(&db.records, name, dob))
    } else {
        Err(ElectionError::Csv)
    }
}

/// Whether the voter `name`, `dob` has a record in the voter database. A
/// record that cannot be read before theirs is an error; the records after
/// theirs are not consulted.
pub fn verify_voter_data_in(db: &Database, name: &str, dob: &str) -> (r: Result<bool, ElectionError>)
    ensures
        registered(db.records@, name@, dob@) ==> r == Ok::<bool, ElectionError>(true),
        !registered(db.records@, name@, dob@) && db.fully_read ==> r == Ok::<bool, ElectionError>(false),
        !registered(db.records@, name@, dob@) && !db.fully_read ==> r == Err::<bool, ElectionError>(
            ElectionError::Csv,
        ),
{
    if verify_voter_data(&db.records, name, dob) {
        Ok(true)
    } else if db.fully_read {
        Ok(false)
    } else {
        Err(ElectionError::Csv)
    }
}

/// Judges whether the voter `name`, `dob` may vote, and why not, from the
/// voter database, as [`eligibility`] does from its records. A record that
/// cannot be read before the voter's is an error.
pub fn eligibility_in(db: &Database, name: &str, dob: &str) -> (r: Result<Eligibility, ElectionError>)
    ensures
        db.records@.len() > i32::MAX ==> r == Err::<Eligibility, ElectionError>(ElectionError::TooManyRecords),
        db.records@.len() <= i32::MAX && (registered(db.records@, name@, dob@) || db.fully_read) ==> r
            == eligibility_of(db.records@, name@, dob@),
        db.records@.len() <= i32::MAX && (registered(db.records@, name@, dob@) || db.fully_read) && is_dob_shape(
            dob@,
        ) ==> r is Ok && r != Ok::<Eligibility, ElectionError>(Eligibility::InvalidDob),
        db.records@.len() <= i32::MAX && !registered(db.records@, name@, dob@) && !db.fully_read ==> r
            == Err::<Eligibility, ElectionError>(ElectionError::Csv),
{
    if db.records.len() > 2147483647 {
        return Err(ElectionError::TooManyRecords);
    }
    if verify_voter_data(&db.records, name, dob) || db.fully_read {
        eligibility(&db.records, name, dob)
    } else {
        Err(ElectionError::Csv)
    }
}

/// The text of a record of three fields is those three fields.
proof fn lemma_record_of_text(r: Vec<String>, a: Seq<char>, b: Seq<char>, c: Seq<char>)
    requires
        record_of(r@, a, b, c),
    ensures
        record_text(r) == seq![a, b, c],
{
    assert(record_text(r) =~= seq![a, b, c]);
}

/// The text that registering the voter `name`, `dob` adds to the end of the
/// voter database: their record with the flag `0`, or `None` when the voter
/// has a record already. The database is searched for the name field by
/// field, so a record without a name, or one with the name and no date of
/// birth, is an error; so is a record that cannot be read.
pub fn add_new_voter_in(db: &Database, name: &str, dob: &str) -> (r: Result<Option<Vec<u8>>, ElectionError>)
    ensures
        !searchable_for(db.records@, name@) ==> r == Err::<Option<Vec<u8>>, ElectionError>(
            ElectionError::MissingField,
        ),
        searchable_for(db.records@, name@) && !db.fully_read ==> r == Err::<Option<Vec<u8>>, ElectionError>(
            ElectionError::Csv,
        ),
        searchable_for(db.records@, name@) && db.fully_read && registered(db.records@, name@, dob@) ==> r
            == Ok::<Option<Vec<u8>>, ElectionError>(None),
        searchable_for(db.records@, name@) && db.fully_read && !registered(db.records@, name@, dob@) ==> match csv_text(
            seq![seq![name@, dob@, "0"@]],
        ) {
            Some(text) => (r matches Ok(Some(b)) && b@ == text),
            None => r == Err::<Option<Vec<u8>>, ElectionError>(ElectionError::Csv),
        },
{
    if !registry_searchable(&db.records, name) {
        return Err(ElectionError::MissingField);
    }
    if !db.fully_read {
        return Err(ElectionError::Csv);
    }
    if verify_voter_data(&db.records, name, dob) {
        return Ok(None);
    }
    let record = new_record(name, dob, "0");
    let mut added: Vec<Vec<String>> = Vec::new();
    added.push(record);
    proof {
        lemma_record_of_text(added@[0], name@, dob@, "0"@);
        assert(records_text(added@) =~= seq![seq![name@, dob@, "0"@]]);
    }
    match format_csv(&added) {
        Some(text) => Ok(Some(text)),
        None => Err(ElectionError::Csv),
    }
}

/// The voter database text after marking the voter at position `row` as
/// having voted: that record becomes `name`, `dob`, `1` and every other
/// record is kept. Every record must be readable, and `row` must be a
/// record of the database.
pub fn change_to_voted_in(db: &Database, row: i32, name: &str, dob: &str) -> (r: Result<Vec<u8>, ElectionError>)
    ensures
        !db.fully_read ==> r == Err::<Vec<u8>, ElectionError>(ElectionError::Csv),
        db.fully_read && !(0 <= row < db.records@.len()) ==> r == Err::<Vec<u8>, ElectionError>(
            ElectionError::MissingRow,
        ),
        db.fully_read && 0 <= row < db.records@.len() ==> match csv_text(
            records_text(db.records@).update(row as int, seq![name@, dob@, "1"@]),
        ) {
            Some(text) => (r matches Ok(b) && b@ == text),
            None => r == Err::<Vec<u8>, ElectionError>(ElectionError::Csv),
        },
{
    if !db.fully_read {
        return Err(ElectionError::Csv);
    }
    if row < 0 || row as usize >= db.records.len() {
        return Err(ElectionError::MissingRow);
    }
    let mut records = copy_records(&db.records);
    let ghost before = records@;
    change_to_voted(&mut records, row, name, dob);
    proof {
        let expected = records_text(db.records@).update(row as int, seq![name@, dob@, "1"@]);
        assert forall|j: int| 0 <= j < records@.len() implies #[trigger] records_text(records@)[j] == expected[j] by {
            if j == row {
                lemma_record_of_text(records@[j], name@, dob@, "1"@);
            } else {
                assert(records@[j] == before[j]);
                assert(record_text(records@[j]) == record_text(db.records@[j]));
            }
        }
        assert(records_text(records@) =~= expected);
    }
    match format_csv(&records) {
        Some(text) => Ok(text),
        None => Err(ElectionError::Csv),
    }
}

/// Each record reduced to its name and date of birth, with the flag `0`.
pub open spec fn reset_text(records: Seq<Seq<Seq<char>>>) -> Seq<Seq<Seq<char>>> {
    Seq::new(records.len(), |i: int| seq![records[i][0], records[i][1], "0"@])
}

/// Starts a new election from the voter database, as [`create_ballot`] does
/// from its records, and gives the new database text: every record reduced
/// to its name and date of birth with the flag `0`. Every record must be
/// readable and have a name and a date of birth.
pub fn create_ballot_in(db: &Database) -> (r: Result<(NewBallot, Vec<u8>), ElectionError>)
    ensures
        !db.fully_read ==> r == Err::<(NewBallot, Vec<u8>), ElectionError>(ElectionError::Csv),
        db.fully_read && !complete_records(db.records@) ==> r == Err::<(NewBallot, Vec<u8>), ElectionError>(
            ElectionError::MissingField,
        ),
        db.fully_read && complete_records(db.records@) ==> match csv_text(reset_text(records_text(db.records@))) {
            Some(text) => (r matches Ok((fresh, b)) && b@ == text && is_fresh_ballot(fresh.metadata)
                && fresh.encryption_key@.len() == key_len() && exists|t: Seq<char>|
                is_time_text(t) && fresh.log_entry@ == t + "\tNew ballot created"@),
            None => r == Err::<(NewBallot, Vec<u8>), ElectionError>(ElectionError::Csv),
        },
{
    if !db.fully_read {
        return Err(ElectionError::Csv);
    }
    let n = db.records.len();
    for i in 0..n
        invariant
            n == db.records@.len(),
            db.fully_read,
            forall|j: int| 0 <= j < i ==> (#[trigger] db.records@[j]@).len() >= 2,
    {
        if db.records[i].len() < 2 {
            return Err(ElectionError::MissingField);
        }
    }
    let mut records = copy_records(&db.records);
    let ghost before = records@;
    let fresh = create_ballot(&mut records);
    proof {
        let expected = reset_text(records_text(db.records@));
        assert forall|j: int| 0 <= j < records@.len() implies #[trigger] records_text(records@)[j] == expected[j] by {
            assert(before[j]@ == db.records@[j]@);
            lemma_record_of_text(records@[j], before[j]@[0]@, before[j]@[1]@, "0"@);
        }
        assert(records_text(records@) =~= expected);
    }
    match format_csv(&records) {
        Some(text) => Ok((fresh, text)),
        None => Err(ElectionError::Csv),
    }
}

/// What stops a login at a credential record: a record without a user name
/// and a password hash, or a hash that is not a well-formed PHC string.
pub open spec fn login_problem(r: Seq<String>) -> Option<ElectionError> {
    if r.len() < 2 {
        Some(ElectionError::MissingField)
    } else if !phc_hash_parses(r[1]@) {
        Some(ElectionError::MalformedPasswordHash)
    } else {
        None
    }
}

/// Record `i` is the first credential record that stops a login.
pub open spec fn first_login_problem(records: Seq<Vec<String>>, i: int) -> bool {
    &&& 0 <= i < records.len()
    &&& login_problem(records[i]@) is Some
    &&& forall|j: int| 0 <= j < i ==> login_problem(#[trigger] records[j]@) is None
}

/// No credential record stops a login.
pub open spec fn no_login_problem(records: Seq<Vec<String>>) -> bool {
    forall|j: int| 0 <= j < records.len() ==> login_problem(#[trigger] records[j]@) is None
}

/// Checks an administrator's login against the login database, as
/// [`admin_authenticate`] does against its records. The records are taken
/// in order: the first that lacks a field or holds a malformed hash stops
/// the login with that error; a record that cannot be read after them is
/// an error too; otherwise the login succeeds when some record has the user
/// name and a hash that the password matches.
pub fn admin_authenticate_in(db: &Database, username: &str, password: &str) -> (r: Result<bool, ElectionError>)
    ensures
        forall|i: int| #[trigger] first_login_problem(db.records@, i) ==> r == Err::<bool, ElectionError>(
            login_problem(db.records@[i]@)->0,
        ),
        no_login_problem(db.records@) && !db.fully_read ==> r == Err::<bool, ElectionError>(ElectionError::Csv),
        no_login_problem(db.records@) && db.fully_read ==> r == Ok::<bool, ElectionError>(
            credentials_accept(db.records@, username@, password.spec_bytes()),
        ),
{
    let n = db.records.len();
    for i in 0..n
        invariant
            n == db.records@.len(),
            forall|j: int| 0 <= j < i ==> login_problem(#[trigger] db.records@[j]@) is None,
    {
        let record = &db.records[i];
        if record.len() < 2 {
            assert(first_login_problem(db.records@, i as int));
            return Err(ElectionError::MissingField);
        }
        if !password_hash_parses(record[1].as_str()) {
            assert(first_login_problem(db.records@, i as int));
            return Err(ElectionError::MalformedPasswordHash);
        }
    }
    if !db.fully_read {
        return Err(ElectionError::Csv);
    }
    proof {
        assert(complete_records(db.records@)) by {
            assert forall|j: int| 0 <= j < db.records@.len() implies (#[trigger] db.records@[j]@).len() >= 2 by {
                assert(login_problem(db.records@[j]@) is None);
            }
        }
        assert(!crate::crypto::has_malformed_hash(db.records@)) by {
            assert forall|j: int| 0 <= j < db.records@.len() implies phc_hash_parses((#[trigger] db.records@[j]@)[1]@) by {
                assert(login_problem(db.records@[j]@) is None);
            }
        }
    }
    admin_authenticate(&db.records, username, password)
}

} // verus!
