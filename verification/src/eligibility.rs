//! Checking dates of birth and voter eligibility, and registering voters.

use vstd::prelude::*;
use crate::model::ElectionError;
use crate::registry::{
    add_new_voter, first_record_at, law_marked_voter_has_voted, marked_voted_at, already_voted, get_voter_index, has_voted, record_of, registered,
    searchable_for,
};
use crate::text::{lowercase, str_eq, to_lowercase};

verus! {

/// Declares `regex::Error`, the error of compiling a pattern, as an opaque
/// type.
#[verifier::external_type_specification]
#[verifier::external_body]
pub struct ExRegexError(regex::Error);

/// What compiling `pattern` with `Regex::new` and searching `haystack` with
/// `is_match` gives: `None` when the pattern does not compile, otherwise
/// whether it matches somewhere in the haystack.
pub uninterp spec fn regex_search(pattern: Seq<char>, haystack: Seq<char>) -> Option<bool>;

/// The number that the two ASCII digits of `s` at `i` and `i + 1` denote.
pub open spec fn two_digit_value(s: Seq<char>, i: int) -> int {
    (s[i] as int - '0' as int) * 10 + (s[i + 1] as int - '0' as int)
}

/// `s` has the form `mm/dd/yyyy` in ASCII digits, with a month from `01`
/// to `12` and a day from `01` to `31`.
pub open spec fn is_dob_shape(s: Seq<char>) -> bool {
    &&& s.len() == 10
    &&& s[2] == '/'
    &&& s[5] == '/'
    &&& forall|i: int| 0 <= i < 10 && i != 2 && i != 5 ==> '0' <= #[trigger] s[i] <= '9'
    &&& 1 <= two_digit_value(s, 0) <= 12
    &&& 1 <= two_digit_value(s, 3) <= 31
}

/// Compiles `pattern` with `Regex::new` and, when it compiles, searches
/// `haystack` with `Regex::is_match`. The contract claims that the outcome
/// is the named one, a function of the two strings alone; and, for the
/// date-of-birth pattern written out in the clause, what the regex syntax
/// documented by the crate gives (anchors `^` and `$`, alternation, the
/// classes `[0-9]`, `[12]`, `[01]` and `\d`, which matches every ASCII
/// digit, and the repetition `{4}`): the pattern compiles and matches every
/// `mm/dd/yyyy` of ASCII digits with a month from `01` to `12` and a day
/// from `01` to `31`. Which other strings it matches is left unsaid.
#[verifier::external_body]
fn pattern_matches(pattern: &str, haystack: &str) -> (r: Result<bool, regex::Error>)
    ensures
        match r {
            Ok(b) => regex_search(pattern@, haystack@) == Some(b),
            Err(_) => regex_search(pattern@, haystack@) is None,
        },
        pattern@ == "^(0[1-9]|1[0-2])/(0[1-9]|[12]"@ + "[0-9]|3[01])/\\d{4}$"@ && is_dob_shape(haystack@) ==> r is Ok && r->Ok_0,
{
    let re = regex::Regex::new(pattern)?;
    Ok(re.is_match(haystack))
}

/// The pattern of a date of birth, `mm/dd/yyyy`.
pub open spec fn date_of_birth_pattern() -> Seq<char> {
    "^(0[1-9]|1[0-2])/(0[1-9]|[12][0-9]|3[01])/\\d{4}$"@
}

/// The outcome of a search, with a pattern that does not compile as an
/// error.
pub open spec fn search_outcome(found: Option<bool>) -> Result<bool, ElectionError> {
    match found {
        Some(b) => Ok(b),
        None => Err(ElectionError::Pattern),
    }
}

/// Whether `dob` has the form `mm/dd/yyyy`.
pub fn is_valid_dob(dob: &str) -> (r: Result<bool, ElectionError>)
    ensures
        r == search_outcome(regex_search(date_of_birth_pattern(), dob@)),
        is_dob_shape(dob@) ==> r == Ok::<bool, ElectionError>(true),
{
    proof {
        reveal_strlit("^(0[1-9]|1[0-2])/(0[1-9]|[12][0-9]|3[01])/\\d{4}$");
        reveal_strlit("^(0[1-9]|1[0-2])/(0[1-9]|[12]");
        reveal_strlit("[0-9]|3[01])/\\d{4}$");
        assert("^(0[1-9]|1[0-2])/(0[1-9]|[12][0-9]|3[01])/\\d{4}$"@ =~= "^(0[1-9]|1[0-2])/(0[1-9]|[12]"@
            + "[0-9]|3[01])/\\d{4}$"@);
    }
    match pattern_matches("^(0[1-9]|1[0-2])/(0[1-9]|[12][0-9]|3[01])/\\d{4}$", dob) {
        Ok(b) => Ok(b),
        Err(_) => Err(ElectionError::Pattern),
    }
}

/// Why a voter may or may not vote.
#[derive(Debug, Clone, Copy, PartialEq, Eq, Structural)]
pub enum Eligibility {
    /// The voter may vote.
    Eligible,
    /// The voter has no record in the registry.
    NotRegistered,
    /// The date of birth is not of the form `mm/dd/yyyy`.
    InvalidDob,
    /// The voter has voted in this election already.
    AlreadyVoted,
}

/// The eligibility that follows from what is known of a voter, judged in
/// this order: a voter without a record is not registered; a date of birth
/// not of the form `mm/dd/yyyy` is invalid; a voter who has voted already
/// may not vote again; any other voter is eligible. A pattern that does not
/// compile fails the judgement where it is consulted.
pub open spec fn eligibility_from(
    registered: bool,
    valid_dob: Result<bool, ElectionError>,
    voted: bool,
) -> Result<Eligibility, ElectionError> {
    if !registered {
        Ok(Eligibility::NotRegistered)
    } else {
        match valid_dob {
            Err(e) => Err(e),
            Ok(false) => Ok(Eligibility::InvalidDob),
            Ok(true) => if voted {
                Ok(Eligibility::AlreadyVoted)
            } else {
                Ok(Eligibility::Eligible)
            },
        }
    }
}

/// The eligibility of the voter `name`, `dob` in the registry `records`.
pub open spec fn eligibility_of(records: Seq<Vec<String>>, name: Seq<char>, dob: Seq<char>) -> Result<
    Eligibility,
    ElectionError,
> {
    eligibility_from(
        registered(records, name, dob),
        search_outcome(regex_search(date_of_birth_pattern(), dob)),
        has_voted(records, name, dob),
    )
}

/// Judges eligibility from what is known of a voter: whether they have a
/// record, whether their date of birth has the form `mm/dd/yyyy`, and
/// whether they have voted.
pub fn decide_eligibility(
    registered: bool,
    valid_dob: Result<bool, ElectionError>,
    voted: bool,
) -> (r: Result<Eligibility, ElectionError>)
    ensures
        r == eligibility_from(registered, valid_dob, voted),
{
    if !registered {
        return Ok(Eligibility::NotRegistered);
    }
    if !valid_dob? {
        return Ok(Eligibility::InvalidDob);
    }
    if voted {
        return Ok(Eligibility::AlreadyVoted);
    }
    Ok(Eligibility::Eligible)
}

/// Judges whether the voter `name`, `dob` may vote, and why not.
pub fn eligibility(records: &Vec<Vec<String>>, name: &str, dob: &str) -> (r: Result<
    Eligibility,
    ElectionError,
>)
    requires
        records@.len() <= i32::MAX,
    ensures
        r == eligibility_of(records@, name@, dob@),
        is_dob_shape(dob@) ==> r is Ok && r != Ok::<Eligibility, ElectionError>(Eligibility::InvalidDob),
{
    let registered = get_voter_index(records, name, dob) != -1;
    let valid_dob = is_valid_dob(dob);
    let voted = already_voted(records, name, dob);
    decide_eligibility(registered, valid_dob, voted)
}

/// Whether the voter `name`, `dob` may vote: they are registered, their date
/// of birth has the form `mm/dd/yyyy`, and they have not voted yet.
pub fn is_eligible(records: &Vec<Vec<String>>, name: &str, dob: &str) -> (r: Result<bool, ElectionError>)
    requires
        records@.len() <= i32::MAX,
    ensures
        match eligibility_of(records@, name@, dob@) {
            Ok(e) => r == Ok::<bool, ElectionError>(e == Eligibility::Eligible),
            Err(e) => r == Err::<bool, ElectionError>(e),
        },
{
    match eligibility(records, name, dob) {
        Ok(e) => Ok(e == Eligibility::Eligible),
        Err(e) => Err(e),
    }
}

/// An eligible voter is registered, has a date of birth of the form
/// `mm/dd/yyyy`, and has not voted yet.
pub proof fn law_eligible_voter(records: Seq<Vec<String>>, name: Seq<char>, dob: Seq<char>)
    requires
        eligibility_of(records, name, dob) == Ok::<Eligibility, ElectionError>(Eligibility::Eligible),
    ensures
        registered(records, name, dob),
        regex_search(date_of_birth_pattern(), dob) == Some(true),
        !has_voted(records, name, dob),
{
}

/// A voter who has voted cannot vote again: once [`change_to_voted`] marks
/// the voter's first record, at the position [`get_voter_index`] gives, the
/// voter is not eligible, whatever their name and date of birth.
pub proof fn law_voter_cannot_vote_twice(
    before: Seq<Vec<String>>,
    after: Seq<Vec<String>>,
    name: Seq<char>,
    dob: Seq<char>,
    row: int,
)
    requires
        first_record_at(before, name, dob, row),
        marked_voted_at(before, after, row, name, dob),
    ensures
        eligibility_of(after, name, dob) != Ok::<Eligibility, ElectionError>(Eligibility::Eligible),
{
    law_marked_voter_has_voted(before, after, name, dob, row);
}

/// The outcome of registering a voter.
#[derive(Debug, Clone, Copy, PartialEq, Eq, Structural)]
pub enum Registration {
    /// The voter was added to the registry.
    Added,
    /// The voter had a record already; the registry is unchanged.
    AlreadyRegistered,
    /// The date of birth is not of the form `mm/dd/yyyy`; the registry is
    /// unchanged.
    InvalidDob,
}

/// Registers a voter: the name is taken in lowercase, the date of birth must
/// have the form `mm/dd/yyyy`, and a voter who has a record already is not
/// added again.
pub fn register_voters(records: &mut Vec<Vec<String>>, name: &str, dob: &str) -> (r: Result<
    Registration,
    ElectionError,
>)
    requires
        searchable_for(old(records)@, lowercase(name@)),
    ensures
        is_dob_shape(dob@) ==> r == Ok::<Registration, ElectionError>(Registration::Added) || r == Ok::<
            Registration,
            ElectionError,
        >(Registration::AlreadyRegistered),
        match search_outcome(regex_search(date_of_birth_pattern(), dob@)) {
            Err(e) => r == Err::<Registration, ElectionError>(e),
            Ok(false) => r == Ok::<Registration, ElectionError>(Registration::InvalidDob),
            Ok(true) => if registered(old(records)@, lowercase(name@), dob@) {
                r == Ok::<Registration, ElectionError>(Registration::AlreadyRegistered)
            } else {
                r == Ok::<Registration, ElectionError>(Registration::Added)
            },
        },
        r == Ok::<Registration, ElectionError>(Registration::Added) ==> final(records)@.len()
            == old(records)@.len() + 1 && final(records)@.drop_last() == old(records)@ && record_of(
            final(records)@.last()@,
            lowercase(name@),
            dob@,
            "0"@,
        ),
        r != Ok::<Registration, ElectionError>(Registration::Added) ==> *final(records) == *old(
            records,
        ),
{
    let voter_name = to_lowercase(name);
    if !is_valid_dob(dob)? {
        return Ok(Registration::InvalidDob);
    }
    if add_new_voter(records, voter_name.as_str(), dob) {
        Ok(Registration::Added)
    } else {
        Ok(Registration::AlreadyRegistered)
    }
}

/// Whether every record has a name field, and every record whose name is
/// `name` also has a date of birth, so that the registry can be searched
/// for `name` field by field.
pub fn registry_searchable(records: &Vec<Vec<String>>, name: &str) -> (r: bool)
    ensures
        r == searchable_for(records@, name@),
{
    let n = records.len();
    for i in 0..n
        invariant
            n == records@.len(),
            forall|j: int|
                0 <= j < i ==> (#[trigger] records@[j]@).len() >= 1 && (records@[j]@[0]@ == name@
                    ==> records@[j]@.len() >= 2),
    {
        if records[i].len() < 1 {
            return false;
        }
        if str_eq(records[i][0].as_str(), name) && records[i].len() < 2 {
            return false;
        }
    }
    true
}

/// Registers a voter as [`register_voters`] does, provided the registry can
/// be searched for the lowercased name; gives `None`, with the registry
/// unchanged, when it cannot.
pub fn register_voters_checked(records: &mut Vec<Vec<String>>, name: &str, dob: &str) -> (r: Option<
    Result<Registration, ElectionError>,
>)
    ensures
        r is None <==> !searchable_for(old(records)@, lowercase(name@)),
        is_dob_shape(dob@) && r is Some ==> r == Some(Ok::<Registration, ElectionError>(Registration::Added))
            || r == Some(Ok::<Registration, ElectionError>(Registration::AlreadyRegistered)),
        r is None ==> *final(records) == *old(records),
        r matches Some(outcome) ==> match search_outcome(regex_search(date_of_birth_pattern(), dob@)) {
            Err(e) => outcome == Err::<Registration, ElectionError>(e),
            Ok(false) => outcome == Ok::<Registration, ElectionError>(Registration::InvalidDob),
            Ok(true) => if registered(old(records)@, lowercase(name@), dob@) {
                outcome == Ok::<Registration, ElectionError>(Registration::AlreadyRegistered)
            } else {
                outcome == Ok::<Registration, ElectionError>(Registration::Added)
            },
        },
        r == Some(Ok::<Registration, ElectionError>(Registration::Added)) ==> final(records)@.len()
            == old(records)@.len() + 1 && final(records)@.drop_last() == old(records)@ && record_of(
            final(records)@.last()@,
            lowercase(name@),
            dob@,
            "0"@,
        ),
        r matches Some(outcome) && outcome != Ok::<Registration, ElectionError>(Registration::Added)
            ==> *final(records) == *old(records),
{
    let voter_name = to_lowercase(name);
    if !registry_searchable(records, voter_name.as_str()) {
        return None;
    }
    Some(register_voters(records, name, dob))
}

} // verus!
