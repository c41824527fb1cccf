//! Reading the history: from the text of the log to commits.
//!
//! The log is asked to print, for each commit, eight fields with
//! [`FIELD_SEPARATOR`] between them, then [`RECORD_SEPARATOR`] and a line break.
//! The last field holds the co-author trailers, one to a line.

use vstd::prelude::*;
use vstd::slice::slice_subrange;
use crate::error::{Error, ErrorView};
use crate::structs::{Commit, CommitView, Contributor, ContributorView};
use crate::text::{blank, from_chars, is_blank, split, split_at, to_chars};

verus! {

/// Stands between the fields of one commit.
pub const FIELD_SEPARATOR: char = '\u{2016}';

/// Stands after the last field of each commit.
pub const RECORD_SEPARATOR: char = '\u{300d}';

/// The number of fields of one commit.
pub const FIELD_COUNT: usize = 8;

/// What every co-author trailer starts with.
pub open spec fn trailer_prefix() -> Seq<char> {
    "Co-authored-by: "@
}

/// The trailer that names `person`: the prefix, the name, a space, and the
/// address in angle brackets.
pub open spec fn trailer_line(person: ContributorView) -> Seq<char> {
    trailer_prefix() + person.name + seq![' ', '<'] + person.email + seq!['>']
}

/// Whether `line` is the trailer of `person`. The name ends before the first
/// `<` of the line, so it holds none.
pub open spec fn is_trailer_of(line: Seq<char>, person: ContributorView) -> bool {
    line == trailer_line(person) && !person.name.contains('<')
}

/// The person that `line` names, if it is a trailer.
pub open spec fn trailer_person(line: Seq<char>) -> Option<ContributorView> {
    if exists|person: ContributorView| is_trailer_of(line, person) {
        Some(choose|person: ContributorView| is_trailer_of(line, person))
    } else {
        None
    }
}

/// Where the pieces of a trailer stand in its line.
proof fn lemma_trailer_shape(line: Seq<char>, person: ContributorView)
    requires
        is_trailer_of(line, person),
    ensures
        ({
            let n = trailer_prefix().len() as int;
            let m = person.name.len() as int;
            &&& line.len() == n + m + person.email.len() + 3
            &&& line.take(n) == trailer_prefix()
            &&& forall|j: int| n <= j < n + m ==> #[trigger] line[j] != '<'
            &&& line[n + m] == ' '
            &&& line[n + m + 1] == '<'
            &&& line[line.len() - 1] == '>'
            &&& person.name == line.subrange(n, n + m)
            &&& person.email == line.subrange(n + m + 2, line.len() - 1)
        }),
{
    let n = trailer_prefix().len() as int;
    assert forall|j: int| n <= j < n + person.name.len() implies #[trigger] line[j] != '<' by {
        assert(line[j] == person.name[j - n]);
    }
}

/// A line is the trailer of one person at most.
pub proof fn lemma_trailer_unique(line: Seq<char>, first: ContributorView, second: ContributorView)
    requires
        is_trailer_of(line, first),
        is_trailer_of(line, second),
    ensures
        first == second,
{
    // The first `<` of the line stands right after the name and its space,
    // so the two names end at the same place.
    lemma_trailer_shape(line, first);
    lemma_trailer_shape(line, second);
}

/// The trailer of a person whose name holds no `<` names that person.
pub proof fn lemma_trailer_round_trip(person: ContributorView)
    requires
        !person.name.contains('<'),
    ensures
        trailer_person(trailer_line(person)) == Some(person),
{
    let line = trailer_line(person);
    assert(is_trailer_of(line, person));
    let found = choose|found: ContributorView| is_trailer_of(line, found);
    lemma_trailer_unique(line, person, found);
}

/// Reads one co-author trailer.
pub fn parse_trailer_line(line: &[char]) -> (res: Option<Contributor>)
    ensures
        res.deep_view() == trailer_person(line@),
{
    let prefix = to_chars("Co-authored-by: ");
    let n = prefix.len();
    if line.len() < n {
        assert forall|person: ContributorView| !is_trailer_of(line@, person) by {
            if is_trailer_of(line@, person) {
                lemma_trailer_shape(line@, person);
            }
        }
        return None;
    }
    let mut i: usize = 0;
    while i < n
        invariant
            i <= n,
            n == prefix@.len(),
            n <= line@.len(),
            prefix@ == trailer_prefix(),
            forall|j: int| 0 <= j < i ==> line@[j] == prefix@[j],
        decreases n - i,
    {
        if line[i] != prefix[i] {
            assert forall|person: ContributorView| !is_trailer_of(line@, person) by {
                if is_trailer_of(line@, person) {
                    lemma_trailer_shape(line@, person);
                }
            }
            return None;
        }
        i += 1;
    }
    let mut open: usize = n;
    while open < line.len() && line[open] != '<'
        invariant
            n <= open <= line@.len(),
            forall|j: int| n <= j < open ==> line@[j] != '<',
        decreases line@.len() - open,
    {
        open += 1;
    }
    let len = line.len();
    if open == len || open == n || line[open - 1] != ' ' || len - 1 <= open || line[len - 1] != '>' {
        assert forall|person: ContributorView| !is_trailer_of(line@, person) by {
            if is_trailer_of(line@, person) {
                lemma_trailer_shape(line@, person);
            }
        }
        return None;
    }
    let name = from_chars(slice_subrange(line, n, open - 1));
    let email = from_chars(slice_subrange(line, open + 1, len - 1));
    let person = Contributor { name, email };
    proof {
        assert(line@ =~= trailer_line(person@));
        assert(is_trailer_of(line@, person@));
        let found = choose|found: ContributorView| is_trailer_of(line@, found);
        lemma_trailer_unique(line@, person@, found);
    }
    Some(person)
}

/// The people that the lines of a trailer block name, in order. Empty lines are
/// passed over. `None` if a line that is not empty is no trailer.
pub open spec fn people_of(lines: Seq<Seq<char>>) -> Option<Seq<ContributorView>>
    decreases lines.len(),
{
    if lines.len() == 0 {
        Some(Seq::empty())
    } else {
        match people_of(lines.drop_last()) {
            None => None,
            Some(people) => if lines.last().len() == 0 {
                Some(people)
            } else {
                match trailer_person(lines.last()) {
                    Some(person) => Some(people.push(person)),
                    None => None,
                }
            },
        }
    }
}

/// The co-authors that a trailer block names.
pub open spec fn co_authors_of(block: Seq<char>) -> Option<Seq<ContributorView>> {
    people_of(split(block, '\n'))
}

/// Once a line is no trailer, no later line mends it.
proof fn lemma_people_of_stays_none(lines: Seq<Seq<char>>, upto: int)
    requires
        0 <= upto <= lines.len(),
        people_of(lines.take(upto)) is None,
    ensures
        people_of(lines) is None,
    decreases lines.len() - upto,
{
    if upto < lines.len() {
        assert(lines.take(upto + 1).drop_last() =~= lines.take(upto));
        lemma_people_of_stays_none(lines, upto + 1);
    } else {
        assert(lines.take(upto) =~= lines);
    }
}

/// Reads the co-author trailers of one commit.
pub fn parse_trailers(block: &[char]) -> (res: Option<Vec<Contributor>>)
    ensures
        res.deep_view() == co_authors_of(block@),
{
    let lines = split_at(block, '\n');
    let mut people: Vec<Contributor> = Vec::new();
    let mut i: usize = 0;
    while i < lines.len()
        invariant
            i <= lines.len(),
            lines.deep_view() == split(block@, '\n'),
            people_of(lines.deep_view().take(i as int)) == Some(people.deep_view()),
        decreases lines.len() - i,
    {
        proof {
            assert(lines.deep_view().take(i + 1).drop_last() =~= lines.deep_view().take(i as int));
            assert(lines.deep_view()[i as int] =~= lines[i as int]@);
        }
        if lines[i].len() > 0 {
            match parse_trailer_line(lines[i].as_slice()) {
                Some(person) => {
                    people.push(person);
                },
                None => {
                    proof {
                        lemma_people_of_stays_none(lines.deep_view(), i + 1);
                    }
                    return None;
                },
            }
        }
        i += 1;
    }
    assert(lines.deep_view().take(i as int) =~= lines.deep_view());
    Some(people)
}

/// The commit that `record` holds: its eight fields in their order, the last
/// one read as a trailer block. `None` if the fields are not eight or the
/// trailers cannot be read.
pub open spec fn commit_of(record: Seq<char>) -> Option<CommitView> {
    let fields = split(record, FIELD_SEPARATOR);
    if fields.len() == FIELD_COUNT {
        match co_authors_of(fields[7]) {
            Some(co_authors) => Some(
                CommitView {
                    full_sha: fields[0],
                    short_sha: fields[1],
                    subject: fields[2],
                    author: ContributorView { name: fields[3], email: fields[4] },
                    committer: ContributorView { name: fields[5], email: fields[6] },
                    co_authors,
                },
            ),
            None => None,
        }
    } else {
        None
    }
}

/// Reads one record of the log.
pub fn parse_record(record: &[char]) -> (res: Option<Commit>)
    ensures
        res.deep_view() == commit_of(record@),
{
    let fields = split_at(record, FIELD_SEPARATOR);
    if fields.len() != FIELD_COUNT {
        return None;
    }
    assert forall|k: int| 0 <= k < 8 implies #[trigger] fields.deep_view()[k] == fields[k]@ by {
        assert(fields.deep_view()[k] =~= fields[k]@);
    }
    match parse_trailers(fields[7].as_slice()) {
        Some(co_authors) => Some(
            Commit {
                full_sha: from_chars(fields[0].as_slice()),
                short_sha: from_chars(fields[1].as_slice()),
                subject: from_chars(fields[2].as_slice()),
                author: Contributor {
                    name: from_chars(fields[3].as_slice()),
                    email: from_chars(fields[4].as_slice()),
                },
                committer: Contributor {
                    name: from_chars(fields[5].as_slice()),
                    email: from_chars(fields[6].as_slice()),
                },
                co_authors,
            },
        ),
        None => None,
    }
}

/// The record that stands in the fragment at `index`, the fragments being what
/// lies between the record separators of a log. The log ends each record with
/// the separator and a line break, so in every fragment but the first one
/// leading line break belongs to the record before and is left out.
pub open spec fn record_of(fragments: Seq<Seq<char>>, index: int) -> Seq<char> {
    let fragment = fragments[index];
    if index > 0 && fragment.len() > 0 && fragment[0] == '\n' {
        fragment.skip(1)
    } else {
        fragment
    }
}

/// The records of the log `raw`, blank ones among them.
pub open spec fn records(raw: Seq<char>) -> Seq<Seq<char>> {
    let fragments = split(raw, RECORD_SEPARATOR);
    Seq::new(fragments.len(), |index: int| record_of(fragments, index))
}

/// The commits that `records` hold, in order. Blank records are passed over.
/// If a record that is not blank is no commit, the first such record.
pub open spec fn commits_of(records: Seq<Seq<char>>) -> Result<Seq<CommitView>, Seq<char>>
    decreases records.len(),
{
    if records.len() == 0 {
        Ok(Seq::empty())
    } else {
        match commits_of(records.drop_last()) {
            Err(record) => Err(record),
            Ok(commits) => if blank(records.last()) {
                Ok(commits)
            } else {
                match commit_of(records.last()) {
                    Some(commit) => Ok(commits.push(commit)),
                    None => Err(records.last()),
                }
            },
        }
    }
}

/// What reading the log `raw` gives: all its commits, or the first record that
/// is no commit.
pub open spec fn log_commits(raw: Seq<char>) -> Result<Seq<CommitView>, Seq<char>> {
    commits_of(records(raw))
}

/// The first record that is no commit decides, whatever follows it.
proof fn lemma_commits_of_stays_err(records: Seq<Seq<char>>, upto: int)
    requires
        0 <= upto <= records.len(),
        commits_of(records.take(upto)) is Err,
    ensures
        commits_of(records) == commits_of(records.take(upto)),
    decreases records.len() - upto,
{
    if upto < records.len() {
        assert(records.take(upto + 1).drop_last() =~= records.take(upto));
        lemma_commits_of_stays_err(records, upto + 1);
    } else {
        assert(records.take(upto) =~= records);
    }
}

/// Reads the text that the log command printed.
///
/// Gives every commit of the log, in the order of the log, or fails on the
/// first record that is no commit: there is no partial result. A log without
/// records gives no commits, which is no failure.
pub fn interrogate_git_repository(raw: &str) -> (res: Result<Vec<Commit>, Error>)
    ensures
        match res {
            Ok(commits) => log_commits(raw@) == Ok::<Seq<CommitView>, Seq<char>>(
                commits.deep_view(),
            ),
            Err(error) => log_commits(raw@) matches Err(record) && error@ == (
            ErrorView::MalformedLogRecord { record }),
        },
{
    let chars = to_chars(raw);
    let fragments = split_at(chars.as_slice(), RECORD_SEPARATOR);
    let mut commits: Vec<Commit> = Vec::new();
    let mut i: usize = 0;
    assert(commits.deep_view() =~= Seq::empty());
    while i < fragments.len()
        invariant
            i <= fragments.len(),
            fragments.deep_view() == split(raw@, RECORD_SEPARATOR),
            commits_of(records(raw@).take(i as int)) == Ok::<Seq<CommitView>, Seq<char>>(
                commits.deep_view(),
            ),
        decreases fragments.len() - i,
    {
        let ghost before = commits.deep_view();
        let fragment = fragments[i].as_slice();
        let record = if i > 0 && fragment.len() > 0 && fragment[0] == '\n' {
            slice_subrange(fragment, 1, fragment.len())
        } else {
            fragment
        };
        proof {
            assert(fragments.deep_view()[i as int] =~= fragments[i as int]@);
            assert(records(raw@).take(i + 1).drop_last() =~= records(raw@).take(i as int));
        }
        if !is_blank(record) {
            match parse_record(record) {
                Some(commit) => {
                    commits.push(commit);
                    assert(commits.deep_view() =~= before.push(commit@));
                },
                None => {
                    proof {
                        lemma_commits_of_stays_err(records(raw@), i + 1);
                    }
                    return Err(Error::MalformedLogRecord { record: from_chars(record) });
                },
            }
        }
        i += 1;
    }
    assert(records(raw@).take(i as int) =~= records(raw@));
    Ok(commits)
}

} // verus!
