# voting_machine

A terminal voting machine: administrators register voters, put candidates on
a ballot for three offices (president, senate, judge), open and close the
election and tally the encrypted ballots; voters check in with their name and
date of birth and cast one ballot.

- `src/` is the verified library (Verus): the election data (`model`), the
  ballot and the tally (`ballot`), winner declaration (`results`), the voter
  registry (`registry`), eligibility and registration (`eligibility`), ballot
  encryption and administrator login (`crypto`), the voter and login
  databases as stored CSV text (`database`), the session decisions
  (`session`), sample data (`samples`) and text helpers (`text`).
- `app/` is the program around it: terminal input and output, reading and
  writing the database files, the JSON metadata file and the ballot files.
- `tests/` exercises the library on concrete values.
