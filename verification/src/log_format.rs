//! The log as the log command prints it, and the proof that reading it gives
//! back what was printed.

use vstd::prelude::*;
use vstd::string::StringExecFns;
use crate::git::{
    co_authors_of, commit_of, commits_of, lemma_trailer_round_trip, log_commits, people_of,
    records, trailer_line, trailer_prefix, FIELD_COUNT, FIELD_SEPARATOR, RECORD_SEPARATOR,
};
use crate::run_command::{Invocation, InvocationView};
use crate::structs::{CommitView, Contributor, ContributorView};
use crate::text::{
    append_decimal, blank, decimal_text, join, join_all, lemma_split_append, lemma_split_extend,
    lemma_split_of_join, split,
};

verus! {

/// The trailers of `people`, one to a line.
pub open spec fn trailer_lines(people: Seq<ContributorView>) -> Seq<Seq<char>> {
    people.map_values(|person: ContributorView| trailer_line(person))
}

/// The trailer block that names `people`: their trailers with a line break
/// between each two.
pub open spec fn trailer_block(people: Seq<ContributorView>) -> Seq<char> {
    join(trailer_lines(people), seq!['\n'])
}

/// The eight fields of `commit`, as text.
pub open spec fn record_fields(commit: CommitView) -> Seq<Seq<char>> {
    seq![
        commit.full_sha,
        commit.short_sha,
        commit.subject,
        commit.author.name,
        commit.author.email,
        commit.committer.name,
        commit.committer.email,
        trailer_block(commit.co_authors),
    ]
}

/// The record of `commit`: its fields with the field separator between them.
pub open spec fn record_text(commit: CommitView) -> Seq<char> {
    join(record_fields(commit), seq![FIELD_SEPARATOR])
}

/// The log of `commits`: each record followed by the record separator and a
/// line break.
pub open spec fn log_text(commits: Seq<CommitView>) -> Seq<char>
    decreases commits.len(),
{
    if commits.len() == 0 {
        Seq::empty()
    } else {
        log_text(commits.drop_last()) + record_text(commits.last()) + seq![RECORD_SEPARATOR, '\n']
    }
}

/// A field that holds neither separator.
pub open spec fn plain(field: Seq<char>) -> bool {
    !field.contains(FIELD_SEPARATOR) && !field.contains(RECORD_SEPARATOR)
}

/// A co-author that a trailer can name: nothing in the name or the address
/// ends the line, the field or the record, and the name holds no `<`.
pub open spec fn printable_person(person: ContributorView) -> bool {
    &&& plain(person.name)
    &&& plain(person.email)
    &&& !person.name.contains('\n')
    &&& !person.email.contains('\n')
    &&& !person.name.contains('<')
}

/// A commit that the log can print without ambiguity.
pub open spec fn printable(commit: CommitView) -> bool {
    &&& plain(commit.full_sha)
    &&& plain(commit.short_sha)
    &&& plain(commit.subject)
    &&& plain(commit.author.name)
    &&& plain(commit.author.email)
    &&& plain(commit.committer.name)
    &&& plain(commit.committer.email)
    &&& forall|i: int|
        0 <= i < commit.co_authors.len() ==> printable_person(#[trigger] commit.co_authors[i])
}

/// A character of a joined text stands in a part or in the separator.
proof fn lemma_join_holds(parts: Seq<Seq<char>>, sep: Seq<char>, c: char)
    requires
        !sep.contains(c) || parts.len() <= 1,
        forall|i: int| 0 <= i < parts.len() ==> !(#[trigger] parts[i]).contains(c),
    ensures
        !join(parts, sep).contains(c),
    decreases parts.len(),
{
    if parts.len() > 1 {
        let init = parts.drop_last();
        assert forall|i: int| 0 <= i < init.len() implies !(#[trigger] init[i]).contains(c) by {
            assert(init[i] == parts[i]);
        }
        lemma_join_holds(init, sep, c);
        lemma_concat_holds(join(init, sep), sep, c);
        lemma_concat_holds(join(init, sep) + sep, parts.last(), c);
    }
}

/// A character that neither of two texts holds is not in the two put together.
proof fn lemma_concat_holds(left: Seq<char>, right: Seq<char>, c: char)
    requires
        !left.contains(c),
        !right.contains(c),
    ensures
        !(left + right).contains(c),
{
    if (left + right).contains(c) {
        let k = choose|k: int| 0 <= k < (left + right).len() && (left + right)[k] == c;
        if k < left.len() {
            assert(left[k] == c);
        } else {
            assert(right[k - left.len()] == c);
        }
    }
}

/// The prefix of a trailer holds no character that ends a line, a field or a
/// record.
proof fn lemma_prefix_plain()
    ensures
        !trailer_prefix().contains('\n'),
        !trailer_prefix().contains(FIELD_SEPARATOR),
        !trailer_prefix().contains(RECORD_SEPARATOR),
        trailer_prefix().len() == 16,
{
    reveal_strlit("Co-authored-by: ");
}

/// A trailer holds none of `c` if its person and the fixed parts hold none.
proof fn lemma_trailer_holds(person: ContributorView, c: char)
    requires
        !person.name.contains(c),
        !person.email.contains(c),
        !trailer_prefix().contains(c),
        c != ' ',
        c != '<',
        c != '>',
    ensures
        !trailer_line(person).contains(c),
        trailer_line(person).len() > 0,
{
    let opening = seq![' ', '<'];
    let closing = seq!['>'];
    lemma_concat_holds(trailer_prefix(), person.name, c);
    lemma_concat_holds(trailer_prefix() + person.name, opening, c);
    lemma_concat_holds(trailer_prefix() + person.name + opening, person.email, c);
    lemma_concat_holds(trailer_prefix() + person.name + opening + person.email, closing, c);
}

/// Reading the trailers of people that can be printed names those people.
proof fn lemma_people_of_lines(people: Seq<ContributorView>)
    requires
        forall|i: int| 0 <= i < people.len() ==> printable_person(#[trigger] people[i]),
    ensures
        people_of(trailer_lines(people)) == Some(people),
    decreases people.len(),
{
    if people.len() > 0 {
        let init = people.drop_last();
        assert forall|i: int| 0 <= i < init.len() implies printable_person(#[trigger] init[i]) by {
            assert(init[i] == people[i]);
        }
        lemma_people_of_lines(init);
        assert(trailer_lines(people).drop_last() =~= trailer_lines(init));
        lemma_prefix_plain();
        lemma_trailer_holds(people.last(), '\n');
        lemma_trailer_round_trip(people.last());
    }
}

/// Reading the trailer block of people that can be printed gives those people.
pub proof fn lemma_trailer_block_round_trip(people: Seq<ContributorView>)
    requires
        forall|i: int| 0 <= i < people.len() ==> printable_person(#[trigger] people[i]),
    ensures
        co_authors_of(trailer_block(people)) == Some(people),
{
    let lines = trailer_lines(people);
    if people.len() == 0 {
        // The empty block is one empty line, which is passed over.
        let only = seq![Seq::<char>::empty()];
        assert(people_of(only.drop_last()) == Some(Seq::<ContributorView>::empty()));
    } else {
        lemma_prefix_plain();
        assert forall|i: int| 0 <= i < lines.len() implies !(#[trigger] lines[i]).contains(
            '\n',
        ) by {
            lemma_trailer_holds(people[i], '\n');
        }
        lemma_split_of_join(lines, '\n');
        lemma_people_of_lines(people);
    }
}

/// The trailer block of people that can be printed holds no separator.
proof fn lemma_trailer_block_plain(people: Seq<ContributorView>)
    requires
        forall|i: int| 0 <= i < people.len() ==> printable_person(#[trigger] people[i]),
    ensures
        plain(trailer_block(people)),
{
    let lines = trailer_lines(people);
    lemma_prefix_plain();
    assert forall|i: int| 0 <= i < lines.len() implies !(#[trigger] lines[i]).contains(
        FIELD_SEPARATOR,
    ) && !lines[i].contains(RECORD_SEPARATOR) by {
        lemma_trailer_holds(people[i], FIELD_SEPARATOR);
        lemma_trailer_holds(people[i], RECORD_SEPARATOR);
    }
    lemma_join_holds(lines, seq!['\n'], FIELD_SEPARATOR);
    lemma_join_holds(lines, seq!['\n'], RECORD_SEPARATOR);
}

/// Reading the record of a commit that can be printed gives that commit. The
/// record is not blank and holds no record separator.
pub proof fn lemma_record_round_trip(commit: CommitView)
    requires
        printable(commit),
    ensures
        commit_of(record_text(commit)) == Some(commit),
        !blank(record_text(commit)),
        !record_text(commit).contains(RECORD_SEPARATOR),
{
    let fields = record_fields(commit);
    lemma_trailer_block_plain(commit.co_authors);
    lemma_trailer_block_round_trip(commit.co_authors);
    lemma_split_of_join(fields, FIELD_SEPARATOR);
    lemma_join_holds(fields, seq![FIELD_SEPARATOR], RECORD_SEPARATOR);
    // The record holds a field separator, which is no white space.
    let text = record_text(commit);
    assert(text == join(fields.drop_last(), seq![FIELD_SEPARATOR]) + seq![FIELD_SEPARATOR]
        + fields.last());
    let at = join(fields.drop_last(), seq![FIELD_SEPARATOR]).len() as int;
    assert(text[at] == FIELD_SEPARATOR);
}

/// Whether every commit can be printed.
pub open spec fn all_printable(commits: Seq<CommitView>) -> bool {
    forall|i: int| 0 <= i < commits.len() ==> printable(#[trigger] commits[i])
}

/// What lies between the record separators of a printed log: the first
/// record, every later record after a line break, and a last line break.
proof fn lemma_log_fragments(commits: Seq<CommitView>)
    requires
        all_printable(commits),
    ensures
        ({
            let fragments = split(log_text(commits), RECORD_SEPARATOR);
            &&& fragments.len() == commits.len() + 1
            &&& commits.len() == 0 ==> fragments[0] == Seq::<char>::empty()
            &&& commits.len() > 0 ==> fragments[0] == record_text(commits[0])
            &&& forall|i: int|
                0 < i < commits.len() ==> #[trigger] fragments[i] == seq!['\n'] + record_text(
                    commits[i],
                )
            &&& commits.len() > 0 ==> fragments[commits.len() as int] == seq!['\n']
        }),
    decreases commits.len(),
{
    if commits.len() > 0 {
        let init = commits.drop_last();
        let last = commits.last();
        assert forall|i: int| 0 <= i < init.len() implies printable(#[trigger] init[i]) by {
            assert(init[i] == commits[i]);
        }
        lemma_log_fragments(init);
        lemma_record_round_trip(last);
        // The last record lengthens the last fragment; the separator after it
        // opens a fragment that holds the line break.
        let head = log_text(init) + record_text(last);
        let end = seq!['\n'];
        assert(log_text(commits) =~= head + seq![RECORD_SEPARATOR] + end);
        lemma_split_append(head, end, RECORD_SEPARATOR);
        lemma_split_extend(log_text(init), record_text(last), RECORD_SEPARATOR);
    }
}

/// The records of commits that can be printed give those commits.
proof fn lemma_commits_of_records(commits: Seq<CommitView>)
    requires
        all_printable(commits),
    ensures
        commits_of(commits.map_values(|commit: CommitView| record_text(commit))) == Ok::<
            Seq<CommitView>,
            Seq<char>,
        >(commits),
    decreases commits.len(),
{
    let texts = commits.map_values(|commit: CommitView| record_text(commit));
    if commits.len() == 0 {
        assert(commits =~= Seq::empty());
    } else {
        let init = commits.drop_last();
        assert forall|i: int| 0 <= i < init.len() implies printable(#[trigger] init[i]) by {
            assert(init[i] == commits[i]);
        }
        lemma_commits_of_records(init);
        assert(texts.drop_last() =~= init.map_values(|commit: CommitView| record_text(commit)));
        lemma_record_round_trip(commits.last());
        assert(init.push(commits.last()) =~= commits);
    }
}

/// Reading a printed log gives back the commits that were printed, all of
/// them and in their order: for every sequence of commits whose fields hold no
/// separator and whose co-authors can stand in a trailer.
pub proof fn lemma_log_round_trip(commits: Seq<CommitView>)
    requires
        all_printable(commits),
    ensures
        log_commits(log_text(commits)) == Ok::<Seq<CommitView>, Seq<char>>(commits),
{
    let found = records(log_text(commits));
    lemma_log_fragments(commits);
    if commits.len() == 0 {
        // The empty log is one blank record.
        assert(commits_of(found.drop_last()) == Ok::<Seq<CommitView>, Seq<char>>(Seq::empty()));
        assert(commits =~= Seq::empty());
    } else {
        // The records are those of the commits, then a blank one.
        let fragments = split(log_text(commits), RECORD_SEPARATOR);
        let texts = commits.map_values(|commit: CommitView| record_text(commit));
        assert forall|i: int| 0 <= i < commits.len() implies found[i] == texts[i] by {
            if i > 0 {
                assert(fragments[i].skip(1) =~= record_text(commits[i]));
            }
        }
        assert(found.drop_last() =~= texts);
        lemma_commits_of_records(commits);
    }
}

/// The trailer that names `person` as a co-author.
pub fn trailer_for(person: &Contributor) -> (line: String)
    ensures
        line@ == trailer_line(person@),
{
    let mut line = String::from_str("Co-authored-by: ");
    line.append(person.name.as_str());
    line.push(' ');
    line.push('<');
    line.append(person.email.as_str());
    line.push('>');
    line
}

/// What the log command calls the eight fields, in their order: the full and
/// the short hash, the subject, name and address of the author and of the
/// committer, and the co-author trailers.
pub open spec fn placeholders() -> Seq<Seq<char>> {
    seq![
        "%H"@,
        "%h"@,
        "%s"@,
        "%an"@,
        "%ae"@,
        "%cn"@,
        "%ce"@,
        "%(trailers:key=Co-authored-by)"@,
    ]
}

/// The argument that tells the log command what to print of each commit: the
/// eight fields with the field separator between them, then the record
/// separator. The command ends each commit with a line break by itself.
pub open spec fn pretty_argument() -> Seq<char> {
    "--pretty=tformat:"@ + join(placeholders(), seq![FIELD_SEPARATOR]) + seq![RECORD_SEPARATOR]
}

/// The log command is asked for as many fields as a record must hold: cut at
/// the field separator, what is asked for gives the eight names again.
pub proof fn lemma_format_names_all_fields()
    ensures
        split(join(placeholders(), seq![FIELD_SEPARATOR]), FIELD_SEPARATOR) == placeholders(),
        placeholders().len() == FIELD_COUNT,
{
    reveal_strlit("%H");
    reveal_strlit("%h");
    reveal_strlit("%s");
    reveal_strlit("%an");
    reveal_strlit("%ae");
    reveal_strlit("%cn");
    reveal_strlit("%ce");
    reveal_strlit("%(trailers:key=Co-authored-by)");
    lemma_split_of_join(placeholders(), FIELD_SEPARATOR);
}

/// The argument that bounds the number of commits.
pub open spec fn limit_argument(limit: u32) -> Seq<char> {
    "--max-count="@ + decimal_text(limit as nat)
}

/// The command that prints the log: of all commits, or of `limit` at most.
pub open spec fn log_invocation(limit: Option<u32>) -> InvocationView {
    InvocationView {
        program: "git"@,
        arguments: match limit {
            Some(limit) => seq!["log"@, pretty_argument(), limit_argument(limit)],
            None => seq!["log"@, pretty_argument()],
        },
        std_in: Seq::empty(),
    }
}

/// The command whose output [`crate::git::interrogate_git_repository`] reads:
/// the log of all commits, or of the `limit` latest.
pub fn log_command(limit: Option<u32>) -> (invocation: Invocation)
    ensures
        invocation@ == log_invocation(limit),
{
    let mut fields: Vec<String> = Vec::new();
    fields.push(String::from_str("%H"));
    fields.push(String::from_str("%h"));
    fields.push(String::from_str("%s"));
    fields.push(String::from_str("%an"));
    fields.push(String::from_str("%ae"));
    fields.push(String::from_str("%cn"));
    fields.push(String::from_str("%ce"));
    fields.push(String::from_str("%(trailers:key=Co-authored-by)"));
    assert(fields.deep_view() =~= placeholders());
    let mut separator = String::new();
    separator.push(FIELD_SEPARATOR);
    assert(separator@ =~= seq![FIELD_SEPARATOR]);
    let mut pretty = String::from_str("--pretty=tformat:");
    pretty.append(join_all(&fields, separator.as_str()).as_str());
    pretty.push(RECORD_SEPARATOR);
    assert(pretty@ =~= pretty_argument());
    let mut arguments: Vec<String> = Vec::new();
    arguments.push(String::from_str("log"));
    arguments.push(pretty);
    match limit {
        Some(limit) => {
            let mut bound = String::from_str("--max-count=");
            append_decimal(&mut bound, limit);
            arguments.push(bound);
        },
        None => {},
    }
    let invocation = Invocation {
        program: String::from_str("git"),
        arguments,
        std_in: String::new(),
    };
    assert(invocation@.arguments =~= log_invocation(limit).arguments);
    invocation
}

} // verus!
