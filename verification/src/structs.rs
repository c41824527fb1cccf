//! The records of the history: people and commits.

use vstd::prelude::*;

verus! {

/// A person named in the history: an author, a committer or a co-author.
///
/// Two contributors are the same person exactly when both fields are equal,
/// character for character.
#[derive(Debug)]
pub struct Contributor {
    pub name: String,
    pub email: String,
}

/// What a [`Contributor`] is in contracts.
pub struct ContributorView {
    pub name: Seq<char>,
    pub email: Seq<char>,
}

impl View for Contributor {
    type V = ContributorView;

    open spec fn view(&self) -> ContributorView {
        ContributorView { name: self.name@, email: self.email@ }
    }
}

impl DeepView for Contributor {
    type V = ContributorView;

    open spec fn deep_view(&self) -> ContributorView {
        self@
    }
}

impl Clone for Contributor {
    fn clone(&self) -> (res: Contributor)
        ensures
            res@ == self@,
    {
        Contributor { name: self.name.clone(), email: self.email.clone() }
    }
}

impl PartialEq for Contributor {
    fn eq(&self, other: &Contributor) -> (res: bool) {
        self.name == other.name && self.email == other.email
    }
}

impl vstd::std_specs::cmp::PartialEqSpecImpl for Contributor {
    open spec fn obeys_eq_spec() -> bool {
        true
    }

    open spec fn eq_spec(&self, other: &Contributor) -> bool {
        self.name@ == other.name@ && self.email@ == other.email@
    }
}

impl Eq for Contributor {

}

/// One commit as the log reports it. A commit is built once and never changed.
#[derive(Debug)]
pub struct Commit {
    pub full_sha: String,
    pub short_sha: String,
    pub subject: String,
    pub author: Contributor,
    pub committer: Contributor,
    /// In the order of the trailers in the commit message, repetitions kept.
    pub co_authors: Vec<Contributor>,
}

/// What a [`Commit`] is in contracts.
pub struct CommitView {
    pub full_sha: Seq<char>,
    pub short_sha: Seq<char>,
    pub subject: Seq<char>,
    pub author: ContributorView,
    pub committer: ContributorView,
    pub co_authors: Seq<ContributorView>,
}

impl View for Commit {
    type V = CommitView;

    open spec fn view(&self) -> CommitView {
        CommitView {
            full_sha: self.full_sha@,
            short_sha: self.short_sha@,
            subject: self.subject@,
            author: self.author@,
            committer: self.committer@,
            co_authors: self.co_authors.deep_view(),
        }
    }
}

impl DeepView for Commit {
    type V = CommitView;

    open spec fn deep_view(&self) -> CommitView {
        self@
    }
}

/// A copy of `people`, person by person.
pub fn clone_contributors(people: &Vec<Contributor>) -> (res: Vec<Contributor>)
    ensures
        res.deep_view() == people.deep_view(),
{
    let mut res: Vec<Contributor> = Vec::new();
    let mut i: usize = 0;
    while i < people.len()
        invariant
            i <= people.len(),
            res.len() == i,
            forall|k: int| 0 <= k < i ==> (#[trigger] res[k])@ == people[k]@,
        decreases people.len() - i,
    {
        res.push(people[i].clone());
        i += 1;
    }
    assert(res.deep_view() =~= people.deep_view());
    res
}

/// Whether two lists name the same people in the same order.
pub fn same_contributors(left: &Vec<Contributor>, right: &Vec<Contributor>) -> (res: bool)
    ensures
        res == (left.deep_view() == right.deep_view()),
{
    if left.len() != right.len() {
        assert(left.deep_view().len() != right.deep_view().len());
        return false;
    }
    let mut i: usize = 0;
    while i < left.len()
        invariant
            i <= left.len(),
            left.len() == right.len(),
            forall|k: int| 0 <= k < i ==> (#[trigger] left[k])@ == right[k]@,
        decreases left.len() - i,
    {
        if left[i] != right[i] {
            assert(left.deep_view()[i as int] != right.deep_view()[i as int]);
            return false;
        }
        i += 1;
    }
    assert(left.deep_view() =~= right.deep_view());
    true
}

impl Clone for Commit {
    fn clone(&self) -> (res: Commit)
        ensures
            res@ == self@,
    {
        Commit {
            full_sha: self.full_sha.clone(),
            short_sha: self.short_sha.clone(),
            subject: self.subject.clone(),
            author: self.author.clone(),
            committer: self.committer.clone(),
            co_authors: clone_contributors(&self.co_authors),
        }
    }
}

impl PartialEq for Commit {
    fn eq(&self, other: &Commit) -> (res: bool) {
        self.full_sha == other.full_sha && self.short_sha == other.short_sha && self.subject
            == other.subject && self.author == other.author && self.committer == other.committer
            && same_contributors(&self.co_authors, &other.co_authors)
    }
}

impl vstd::std_specs::cmp::PartialEqSpecImpl for Commit {
    open spec fn obeys_eq_spec() -> bool {
        true
    }

    open spec fn eq_spec(&self, other: &Commit) -> bool {
        self@ == other@
    }
}

impl Eq for Commit {

}

} // verus!
