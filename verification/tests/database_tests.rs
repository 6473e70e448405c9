use argon2::password_hash::{rand_core::OsRng, PasswordHasher, SaltString};
use argon2::Argon2;
use voting_machine::database::{
    add_new_voter_in, admin_authenticate_in, already_voted_in, change_to_voted_in, create_ballot_in,
    eligibility_in, get_voter_index_in, read_database, verify_voter_data_in,
};
use voting_machine::eligibility::Eligibility;
use voting_machine::model::ElectionError;

const VOTERS: &str = "ann lee,01/02/1990,0\nbob ray,03/04/1985,1\n";

// The second record has two fields where the first has three: the reader refuses it.
const BROKEN_AFTER_ANN: &str = "ann lee,01/02/1990,0\nbob ray,03/04/1985\ncy do,07/08/1999,0\n";

fn hash(password: &str) -> String {
    let salt = SaltString::generate(&mut OsRng);
    Argon2::default().hash_password(password.as_bytes(), &salt).unwrap().to_string()
}

#[test]
fn database_reads_every_record() {
    let db = read_database(VOTERS.as_bytes());
    assert!(db.fully_read);
    assert_eq!(db.records, vec![
        vec!["ann lee".to_string(), "01/02/1990".to_string(), "0".to_string()],
        vec!["bob ray".to_string(), "03/04/1985".to_string(), "1".to_string()],
    ]);
}

#[test]
fn database_stops_at_the_first_unreadable_record() {
    let db = read_database(BROKEN_AFTER_ANN.as_bytes());
    assert!(!db.fully_read);
    assert_eq!(db.records, vec![vec!["ann lee".to_string(), "01/02/1990".to_string(), "0".to_string()]]);
}

#[test]
fn database_with_invalid_text_is_not_fully_read() {
    let db = read_database(&[b'a', b',', 0xff, b'\n']);
    assert!(!db.fully_read);
    assert!(db.records.is_empty());
}

#[test]
fn empty_database_has_no_records() {
    let db = read_database(b"");
    assert!(db.fully_read);
    assert!(db.records.is_empty());
}

#[test]
fn voter_before_an_unreadable_record_is_found() {
    let db = read_database(BROKEN_AFTER_ANN.as_bytes());
    assert_eq!(verify_voter_data_in(&db, "ann lee", "01/02/1990"), Ok(true));
    assert_eq!(get_voter_index_in(&db, "ann lee", "01/02/1990"), Ok(0));
    assert_eq!(already_voted_in(&db, "ann lee", "01/02/1990"), Ok(false));
}

#[test]
fn voter_after_an_unreadable_record_is_an_error() {
    let db = read_database(BROKEN_AFTER_ANN.as_bytes());
    assert_eq!(verify_voter_data_in(&db, "cy do", "07/08/1999"), Err(ElectionError::Csv));
    assert_eq!(get_voter_index_in(&db, "cy do", "07/08/1999"), Err(ElectionError::Csv));
    assert_eq!(already_voted_in(&db, "cy do", "07/08/1999"), Err(ElectionError::Csv));
    assert_eq!(eligibility_in(&db, "cy do", "07/08/1999"), Err(ElectionError::Csv));
}

#[test]
fn lookups_in_a_readable_database() {
    let db = read_database(VOTERS.as_bytes());
    assert_eq!(verify_voter_data_in(&db, "bob ray", "03/04/1985"), Ok(true));
    assert_eq!(verify_voter_data_in(&db, "bob ray", "03/04/1986"), Ok(false));
    assert_eq!(get_voter_index_in(&db, "bob ray", "03/04/1985"), Ok(1));
    assert_eq!(get_voter_index_in(&db, "eve", "01/01/2000"), Ok(-1));
    assert_eq!(already_voted_in(&db, "bob ray", "03/04/1985"), Ok(true));
    assert_eq!(already_voted_in(&db, "eve", "01/01/2000"), Ok(false));
}

#[test]
fn eligibility_from_the_database() {
    let db = read_database(VOTERS.as_bytes());
    assert_eq!(eligibility_in(&db, "ann lee", "01/02/1990"), Ok(Eligibility::Eligible));
    assert_eq!(eligibility_in(&db, "bob ray", "03/04/1985"), Ok(Eligibility::AlreadyVoted));
    assert_eq!(eligibility_in(&db, "eve", "01/01/2000"), Ok(Eligibility::NotRegistered));
}

#[test]
fn new_voter_gives_one_line_to_append() {
    let db = read_database(VOTERS.as_bytes());
    assert_eq!(add_new_voter_in(&db, "cy do", "07/08/1999"), Ok(Some(b"cy do,07/08/1999,0\n".to_vec())));
}

#[test]
fn registered_voter_is_not_added_again() {
    let db = read_database(VOTERS.as_bytes());
    assert_eq!(add_new_voter_in(&db, "ann lee", "01/02/1990"), Ok(None));
}

#[test]
fn registration_needs_every_record_readable() {
    let db = read_database(BROKEN_AFTER_ANN.as_bytes());
    assert_eq!(add_new_voter_in(&db, "dee", "01/01/2001"), Err(ElectionError::Csv));
}

#[test]
fn registration_needs_a_date_of_birth_where_the_name_matches() {
    let db = read_database(b"ann lee\nbob ray\n");
    assert_eq!(add_new_voter_in(&db, "ann lee", "01/02/1990"), Err(ElectionError::MissingField));
    assert_eq!(add_new_voter_in(&db, "eve", "01/02/1990"), Ok(Some(b"eve,01/02/1990,0\n".to_vec())));
}

#[test]
fn marking_a_voter_rewrites_their_line() {
    let db = read_database(VOTERS.as_bytes());
    assert_eq!(
        change_to_voted_in(&db, 0, "ann lee", "01/02/1990"),
        Ok(b"ann lee,01/02/1990,1\nbob ray,03/04/1985,1\n".to_vec())
    );
}

#[test]
fn marking_a_missing_row_is_an_error() {
    let db = read_database(VOTERS.as_bytes());
    assert_eq!(change_to_voted_in(&db, 2, "x", "y"), Err(ElectionError::MissingRow));
    assert_eq!(change_to_voted_in(&db, -1, "x", "y"), Err(ElectionError::MissingRow));
}

#[test]
fn marking_needs_every_record_readable() {
    let db = read_database(BROKEN_AFTER_ANN.as_bytes());
    assert_eq!(change_to_voted_in(&db, 0, "ann lee", "01/02/1990"), Err(ElectionError::Csv));
}

#[test]
fn field_with_a_comma_is_quoted() {
    let db = read_database(b"\"lee, ann\",01/02/1990,0\n");
    assert_eq!(db.records[0][0], "lee, ann");
    assert_eq!(
        change_to_voted_in(&db, 0, "lee, ann", "01/02/1990"),
        Ok(b"\"lee, ann\",01/02/1990,1\n".to_vec())
    );
}

#[test]
fn new_election_resets_every_flag() {
    let db = read_database(b"ann lee,01/02/1990,1\nbob ray,03/04/1985,1\n");
    let (fresh, text) = create_ballot_in(&db).unwrap();
    assert_eq!(text, b"ann lee,01/02/1990,0\nbob ray,03/04/1985,0\n".to_vec());
    assert_eq!(fresh.metadata.status, "closed");
    assert_eq!(fresh.encryption_key.len(), 32);
    assert!(fresh.log_entry.ends_with("\tNew ballot created"));
}

#[test]
fn new_election_needs_names_and_dates() {
    let db = read_database(b"ann lee\nbob ray\n");
    assert!(matches!(create_ballot_in(&db), Err(ElectionError::MissingField)));
    let broken = read_database(BROKEN_AFTER_ANN.as_bytes());
    assert!(matches!(create_ballot_in(&broken), Err(ElectionError::Csv)));
}

#[test]
fn login_against_the_login_database() {
    let text = format!("admin,\"{}\"\n", hash("secret"));
    let db = read_database(text.as_bytes());
    assert_eq!(admin_authenticate_in(&db, "admin", "secret"), Ok(true));
    assert_eq!(admin_authenticate_in(&db, "admin", "wrong"), Ok(false));
    assert_eq!(admin_authenticate_in(&db, "root", "secret"), Ok(false));
}

#[test]
fn login_stops_at_the_first_bad_record() {
    let db = read_database(b"admin,not a hash\n");
    assert_eq!(admin_authenticate_in(&db, "admin", "secret"), Err(ElectionError::MalformedPasswordHash));
    let short = read_database(b"admin\n");
    assert_eq!(admin_authenticate_in(&short, "admin", "secret"), Err(ElectionError::MissingField));
    let text = format!("admin,\"{}\"\nroot\n", hash("secret"));
    let broken = read_database(text.as_bytes());
    assert!(!broken.fully_read);
    assert_eq!(admin_authenticate_in(&broken, "admin", "secret"), Err(ElectionError::Csv));
    let text = format!("admin,not a hash\nroot,\"{}\",x\n", hash("secret"));
    let malformed_first = read_database(text.as_bytes());
    assert_eq!(admin_authenticate_in(&malformed_first, "root", "secret"), Err(ElectionError::MalformedPasswordHash));
}
