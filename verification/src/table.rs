//! The table of commits: its columns, and the people that the commits name.

use vstd::prelude::*;
use crate::structs::{Commit, CommitView, Contributor, ContributorView};
use crate::text::{join, join_all};

verus! {

/// The columns of the table of commits.
#[derive(Copy, Clone, PartialEq, Eq, Hash, Debug, Structural)]
pub enum BasicColumn {
    ShortSha,
    Subject,
    Authors,
}

/// The people of one commit: its author, then its co-authors as listed.
pub open spec fn commit_people(commit: CommitView) -> Seq<ContributorView> {
    seq![commit.author] + commit.co_authors
}

/// The people of all commits, commit after commit, repetitions kept.
pub open spec fn all_people(commits: Seq<CommitView>) -> Seq<ContributorView>
    decreases commits.len(),
{
    if commits.len() == 0 {
        Seq::empty()
    } else {
        all_people(commits.drop_last()) + commit_people(commits.last())
    }
}

/// Every value of `items` once, each where it first occurs.
pub open spec fn first_occurrences<T>(items: Seq<T>) -> Seq<T>
    decreases items.len(),
{
    if items.len() == 0 {
        Seq::empty()
    } else {
        let before = first_occurrences(items.drop_last());
        if before.contains(items.last()) {
            before
        } else {
            before.push(items.last())
        }
    }
}

/// The names of `people`, in order.
pub open spec fn names_of(people: Seq<ContributorView>) -> Seq<Seq<char>> {
    people.map_values(|person: ContributorView| person.name)
}

/// The people to choose from: everyone that the commits name, once each, in
/// the order in which they first appear.
pub open spec fn contributor_index(commits: Seq<CommitView>) -> Seq<ContributorView> {
    first_occurrences(all_people(commits))
}

/// Among first occurrences nothing occurs twice.
pub proof fn lemma_first_occurrences_distinct<T>(items: Seq<T>)
    ensures
        first_occurrences(items).no_duplicates(),
    decreases items.len(),
{
    if items.len() > 0 {
        lemma_first_occurrences_distinct(items.drop_last());
    }
}

/// The first occurrences hold the values of `items`, and no others.
pub proof fn lemma_first_occurrences_complete<T>(items: Seq<T>, value: T)
    ensures
        first_occurrences(items).contains(value) <==> items.contains(value),
    decreases items.len(),
{
    if items.len() > 0 {
        let init = items.drop_last();
        let before = first_occurrences(init);
        lemma_first_occurrences_complete(init, value);
        if items.contains(value) {
            let k = choose|k: int| 0 <= k < items.len() && items[k] == value;
            if k < items.len() - 1 {
                assert(init[k] == value);
                let at = choose|at: int| 0 <= at < before.len() && before[at] == value;
                assert(first_occurrences(items)[at] == value);
            } else if !before.contains(value) {
                assert(first_occurrences(items)[before.len() as int] == value);
            }
        }
        if first_occurrences(items).contains(value) {
            let at = choose|at: int|
                0 <= at < first_occurrences(items).len() && first_occurrences(items)[at] == value;
            if at < before.len() {
                assert(before[at] == value);
                let k = choose|k: int| 0 <= k < init.len() && init[k] == value;
                assert(items[k] == value);
            } else {
                assert(items[items.len() - 1] == value);
            }
        }
    }
}

/// There are as many first occurrences as `items` has distinct values.
pub proof fn lemma_first_occurrences_count<T>(items: Seq<T>)
    ensures
        first_occurrences(items).to_set() == items.to_set(),
        first_occurrences(items).len() == items.to_set().len(),
{
    let firsts = first_occurrences(items);
    assert forall|value: T| firsts.to_set().contains(value) <==> items.to_set().contains(
        value,
    ) by {
        lemma_first_occurrences_complete(items, value);
    }
    assert(firsts.to_set() =~= items.to_set());
    lemma_first_occurrences_distinct(items);
    firsts.unique_seq_to_set();
}

/// The first occurrences stand in the order in which their values first
/// appear: each is the first of its value in `items`, and of two of them the
/// earlier one is found earlier in `items`.
pub open spec fn in_order_of_appearance<T>(items: Seq<T>, firsts: Seq<T>, places: Seq<int>) -> bool {
    &&& places.len() == firsts.len()
    &&& forall|k: int|
        0 <= k < firsts.len() ==> 0 <= #[trigger] places[k] < items.len() && items[places[k]]
            == firsts[k] && !items.take(places[k]).contains(firsts[k])
    &&& forall|j: int, k: int|
        0 <= j < k < firsts.len() ==> #[trigger] places[j] < #[trigger] places[k]
}

/// The places in `items` where the values first occur, in order.
pub open spec fn first_places<T>(items: Seq<T>) -> Seq<int>
    decreases items.len(),
{
    if items.len() == 0 {
        Seq::empty()
    } else {
        let before = first_places(items.drop_last());
        if first_occurrences(items.drop_last()).contains(items.last()) {
            before
        } else {
            before.push(items.len() - 1)
        }
    }
}

/// First appearance decides the order of the first occurrences.
pub proof fn lemma_first_occurrences_order<T>(items: Seq<T>)
    ensures
        in_order_of_appearance(items, first_occurrences(items), first_places(items)),
    decreases items.len(),
{
    if items.len() > 0 {
        let init = items.drop_last();
        let firsts = first_occurrences(items);
        let places = first_places(items);
        lemma_first_occurrences_order(init);
        assert forall|k: int| 0 <= k < firsts.len() implies 0 <= #[trigger] places[k] < items.len()
            && items[places[k]] == firsts[k] && !items.take(places[k]).contains(firsts[k]) by {
            if k < first_occurrences(init).len() {
                let at = first_places(init)[k];
                assert(items.take(at) =~= init.take(at));
            } else {
                lemma_first_occurrences_complete(init, items.last());
            }
        }
    }
}

/// Nobody is listed twice among the people to choose from, everybody whom a
/// commit names as author or co-author is listed, nobody else is, and the list
/// is as long as there are different people among them.
pub proof fn lemma_contributor_index(commits: Seq<CommitView>)
    ensures
        contributor_index(commits).no_duplicates(),
        forall|person: ContributorView|
            contributor_index(commits).contains(person) <==> all_people(commits).contains(person),
        contributor_index(commits).len() == all_people(commits).to_set().len(),
{
    lemma_first_occurrences_distinct(all_people(commits));
    lemma_first_occurrences_count(all_people(commits));
    assert forall|person: ContributorView|
        contributor_index(commits).contains(person) <==> all_people(commits).contains(
            person,
        ) by {
        lemma_first_occurrences_complete(all_people(commits), person);
    }
}

/// The people of every commit are among all people: its author and each of
/// its co-authors.
pub proof fn lemma_all_people_holds(commits: Seq<CommitView>, at: int)
    requires
        0 <= at < commits.len(),
    ensures
        all_people(commits).contains(commits[at].author),
        forall|k: int|
            0 <= k < commits[at].co_authors.len() ==> all_people(commits).contains(
                #[trigger] commits[at].co_authors[k],
            ),
    decreases commits.len(),
{
    let init = commits.drop_last();
    let head = all_people(init);
    let tail = commit_people(commits.last());
    if at < commits.len() - 1 {
        lemma_all_people_holds(init, at);
        let place = choose|place: int| 0 <= place < head.len() && head[place] == commits[at].author;
        assert((head + tail)[place] == commits[at].author);
        assert forall|k: int| 0 <= k < commits[at].co_authors.len() implies all_people(
            commits,
        ).contains(#[trigger] commits[at].co_authors[k]) by {
            let person = commits[at].co_authors[k];
            let place = choose|place: int| 0 <= place < head.len() && head[place] == person;
            assert((head + tail)[place] == person);
        }
    } else {
        assert((head + tail)[head.len() as int] == commits[at].author);
        assert forall|k: int| 0 <= k < commits[at].co_authors.len() implies all_people(
            commits,
        ).contains(#[trigger] commits[at].co_authors[k]) by {
            assert((head + tail)[head.len() + 1 + k] == commits[at].co_authors[k]);
        }
    }
}

/// The names of `people`, in order.
pub fn names(people: &Vec<Contributor>) -> (names: Vec<String>)
    ensures
        names.deep_view() == names_of(people.deep_view()),
{
    let mut names: Vec<String> = Vec::new();
    let mut i: usize = 0;
    while i < people.len()
        invariant
            i <= people.len(),
            names.len() == i,
            forall|k: int| 0 <= k < i ==> (#[trigger] names[k])@ == people[k].name@,
        decreases people.len() - i,
    {
        names.push(people[i].name.clone());
        i += 1;
    }
    assert(names.deep_view() =~= names_of(people.deep_view()));
    names
}

/// The names of the co-authors of `commit`, as listed.
pub fn co_author_names(commit: &Commit) -> (names: Vec<String>)
    ensures
        names.deep_view() == names_of(commit@.co_authors),
{
    names(&commit.co_authors)
}

/// The people of `commit`: its author, then its co-authors as listed.
pub fn authors_and_contributors(commit: &Commit) -> (list: Vec<Contributor>)
    ensures
        list.deep_view() == commit_people(commit@),
{
    let mut list: Vec<Contributor> = Vec::new();
    list.push(commit.author.clone());
    let mut i: usize = 0;
    while i < commit.co_authors.len()
        invariant
            i <= commit.co_authors.len(),
            list.len() == i + 1,
            list[0]@ == commit.author@,
            forall|k: int| 1 <= k <= i ==> (#[trigger] list[k])@ == commit.co_authors[k - 1]@,
        decreases commit.co_authors.len() - i,
    {
        list.push(commit.co_authors[i].clone());
        i += 1;
    }
    list
}

/// What the authors column shows of a commit: the names of its people with
/// a comma and a space between each two.
pub open spec fn author_list(commit: CommitView) -> Seq<char> {
    join(names_of(commit_people(commit)), ", "@)
}

/// The names of the people of `commit`, author first, with a comma and a space
/// between each two.
pub fn authors_and_contributors_names(commit: &Commit) -> (names: String)
    ensures
        names@ == author_list(commit@),
{
    join_all(&names(&authors_and_contributors(commit)), ", ")
}

/// Whether `person` is among `people`.
fn is_among(people: &Vec<Contributor>, person: &Contributor) -> (res: bool)
    ensures
        res == people.deep_view().contains(person@),
{
    let mut i: usize = 0;
    while i < people.len()
        invariant
            i <= people.len(),
            forall|k: int| 0 <= k < i ==> people.deep_view()[k] != person@,
        decreases people.len() - i,
    {
        if people[i] == *person {
            assert(people.deep_view()[i as int] == person@);
            return true;
        }
        i += 1;
    }
    false
}

/// Every person of `everyone` once, each where that person first occurs.
pub fn first_of_each(everyone: &Vec<Contributor>) -> (people: Vec<Contributor>)
    ensures
        people.deep_view() == first_occurrences(everyone.deep_view()),
{
    let mut people: Vec<Contributor> = Vec::new();
    let mut i: usize = 0;
    while i < everyone.len()
        invariant
            i <= everyone.len(),
            people.deep_view() == first_occurrences(everyone.deep_view().take(i as int)),
        decreases everyone.len() - i,
    {
        let ghost before = people.deep_view();
        assert(everyone.deep_view().take(i + 1).drop_last() =~= everyone.deep_view().take(
            i as int,
        ));
        if !is_among(&people, &everyone[i]) {
            people.push(everyone[i].clone());
        }
        i += 1;
    }
    assert(everyone.deep_view().take(i as int) =~= everyone.deep_view());
    people
}

/// Everyone whom `commits` name as author or co-author, once each, in the
/// order in which they first appear.
pub fn contributors_of(commits: &Vec<Commit>) -> (people: Vec<Contributor>)
    ensures
        people.deep_view() == contributor_index(commits.deep_view()),
{
    let mut everyone: Vec<Contributor> = Vec::new();
    let mut i: usize = 0;
    while i < commits.len()
        invariant
            i <= commits.len(),
            everyone.deep_view() == all_people(commits.deep_view().take(i as int)),
        decreases commits.len() - i,
    {
        let mut list = authors_and_contributors(&commits[i]);
        everyone.append(&mut list);
        proof {
            assert(commits.deep_view().take(i + 1).drop_last() =~= commits.deep_view().take(
                i as int,
            ));
        }
        i += 1;
    }
    assert(commits.deep_view().take(i as int) =~= commits.deep_view());
    first_of_each(&everyone)
}

/// The people to choose from: everyone whom the commits name as author or
/// co-author, once each, in the order in which they first appear. Two people
/// are the same when name and address are both equal.
pub fn contributors(commits: Vec<Commit>) -> (people: Vec<Contributor>)
    ensures
        people.deep_view() == contributor_index(commits.deep_view()),
{
    contributors_of(&commits)
}

/// What the table shows of `commit` in `column`.
pub open spec fn column_text(commit: CommitView, column: BasicColumn) -> Seq<char> {
    match column {
        BasicColumn::ShortSha => commit.short_sha,
        BasicColumn::Subject => commit.subject,
        BasicColumn::Authors => author_list(commit),
    }
}

impl Commit {
    /// The text of this commit in `column`.
    pub fn to_column(&self, column: BasicColumn) -> (text: String)
        ensures
            text@ == column_text(self@, column),
    {
        match column {
            BasicColumn::ShortSha => self.short_sha.clone(),
            BasicColumn::Subject => self.subject.clone(),
            BasicColumn::Authors => authors_and_contributors_names(self),
        }
    }
}

} // verus!
